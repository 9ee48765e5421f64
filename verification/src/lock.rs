//! The per-device writer lock.
//!
//! `run` takes a transient hold for the duration of its send+expect
//! transaction; it only serialises against other sessions' `run`/`lock`
//! calls. The explicit `lock` RPC takes an exclusive hold, which additionally
//! gates plain `send` and lasts until `unlock` or the session's end.

use vstd::prelude::*;
use vstd::string::*;

use crate::error::{err_with, ErrorCode, ProtocolError};
use crate::text::str_eq;

verus! {

/// A held writer lock: who holds it, and whether the hold is exclusive.
#[derive(Debug, Clone)]
pub struct LockHold {
    pub session_id: String,
    pub exclusive: bool,
}

/// `holder == None` means the lock is free. Each device has its own lock, so
/// transactions on different devices never serialise against each other.
#[derive(Debug, Clone)]
pub struct WriterLock {
    pub holder: Option<LockHold>,
}

/// How an attempt to take the lock went.
#[derive(Debug, Clone, Copy, PartialEq, Eq, Structural)]
pub enum LockAttempt {
    /// The session holds the lock.
    Granted,
    /// Another session holds it: try again at the next release.
    Wait,
}

impl View for WriterLock {
    type V = Option<(Seq<char>, bool)>;

    /// The holding session and whether it holds exclusively.
    open spec fn view(&self) -> Option<(Seq<char>, bool)> {
        match self.holder {
            Some(h) => Some((h.session_id@, h.exclusive)),
            None => None,
        }
    }
}

/// The lock is held by another session than `sid`.
pub open spec fn held_by_other(held: Option<(Seq<char>, bool)>, sid: Seq<char>) -> bool {
    held matches Some(h) && h.0 != sid
}

/// The lock after `sid` asked for it. A free lock is taken; the holder's own
/// hold only ever grows to exclusive; another's hold yields to `force` alone.
pub open spec fn after_acquire(
    held: Option<(Seq<char>, bool)>,
    sid: Seq<char>,
    preempt: Seq<char>,
    exclusive: bool,
) -> Option<(Seq<char>, bool)> {
    match held {
        None => Some((sid, exclusive)),
        Some((holder, was_exclusive)) => if holder == sid {
            Some((sid, was_exclusive || exclusive))
        } else if preempt == "force"@ {
            Some((sid, exclusive))
        } else {
            held
        },
    }
}

/// The session whose hold ends because `sid` takes the lock over: `force`
/// alone does that, and only to another session.
pub open spec fn seized_from(
    held: Option<(Seq<char>, bool)>,
    sid: Seq<char>,
    preempt: Seq<char>,
) -> Option<Seq<char>> {
    match held {
        Some((holder, _)) => if holder != sid && preempt == "force"@ {
            Some(holder)
        } else {
            None
        },
        None => None,
    }
}

/// The lock after `sid` ended a transient hold.
pub open spec fn after_transient_release(
    held: Option<(Seq<char>, bool)>,
    sid: Seq<char>,
) -> Option<(Seq<char>, bool)> {
    if held == Some((sid, false)) {
        None
    } else {
        held
    }
}

/// The lock after `sid` gave up whatever hold it had.
pub open spec fn after_release(held: Option<(Seq<char>, bool)>, sid: Seq<char>) -> Option<
    (Seq<char>, bool),
> {
    if held_by_other(held, sid) {
        held
    } else {
        None
    }
}

/// A plain write by `sid` is refused: another session holds exclusively.
pub open spec fn write_refused(held: Option<(Seq<char>, bool)>, sid: Seq<char>) -> bool {
    held matches Some(h) && h.1 && h.0 != sid
}

impl WriterLock {
    /// A free lock.
    pub fn new() -> (lock: Self)
        ensures
            lock@ is None,
    {
        WriterLock { holder: None }
    }

    /// Whether `sid` holds the lock.
    pub fn is_held_by(&self, sid: &str) -> (b: bool)
        ensures
            b == (self@ matches Some(h) && h.0 == sid@),
    {
        match &self.holder {
            Some(h) => str_eq(h.session_id.as_str(), sid),
            None => false,
        }
    }

    /// The holding session.
    pub fn holder_id(&self) -> (id: Option<String>)
        ensures
            match self@ {
                Some(h) => id matches Some(s) && s@ == h.0,
                None => id is None,
            },
    {
        match &self.holder {
            Some(h) => Some(h.session_id.clone()),
            None => None,
        }
    }

    /// Whether some session holds the lock exclusively.
    pub fn exclusively_held(&self) -> (b: bool)
        ensures
            b == (self@ matches Some(h) && h.1),
    {
        match &self.holder {
            Some(h) => h.exclusive,
            None => false,
        }
    }
}

impl Default for WriterLock {
    fn default() -> (lock: Self)
        ensures
            lock@ is None,
    {
        WriterLock::new()
    }
}

/// Acquires (or re-enters) the writer lock for `session_id`.
///
/// `exclusive` marks the kind of hold being requested. Re-entering an existing
/// hold never downgrades it, but does upgrade it to exclusive on request.
/// Where another session holds the lock, `preempt` decides: `"fail"` reports
/// contention, `"force"` takes the lock over, anything else waits.
pub fn acquire_lock(
    lock: &mut WriterLock,
    session_id: &str,
    preempt: &str,
    exclusive: bool,
) -> (r: Result<LockAttempt, ProtocolError>)
    ensures
        final(lock)@ == after_acquire(old(lock)@, session_id@, preempt@, exclusive),
        match r {
            Ok(LockAttempt::Granted) => final(lock)@ matches Some(h) && h.0 == session_id@,
            Ok(LockAttempt::Wait) => held_by_other(old(lock)@, session_id@) && preempt@ != "fail"@
                && preempt@ != "force"@,
            Err(e) => held_by_other(old(lock)@, session_id@) && preempt@ == "fail"@ && e.is_plain(
                ErrorCode::LockContention,
            ),
        },
{
    proof {
        reveal_strlit("fail");
        reveal_strlit("force");
        assert("fail"@.len() == 4 && "force"@.len() == 5);
    }
    let ours: bool = lock.is_held_by(session_id);
    if ours || lock.holder.is_none() {
        let keep: bool = lock.exclusively_held();
        lock.holder = Some(
            LockHold { session_id: session_id.to_owned(), exclusive: keep || exclusive },
        );
        return Ok(LockAttempt::Granted);
    }
    if str_eq(preempt, "fail") {
        return Err(ProtocolError::new(ErrorCode::LockContention));
    }
    if str_eq(preempt, "force") {
        lock.holder = Some(LockHold { session_id: session_id.to_owned(), exclusive });
        return Ok(LockAttempt::Granted);
    }
    Ok(LockAttempt::Wait)
}

/// Releases the hold iff it is still this session's and still non-exclusive.
/// Returns whether waiting sessions are to be woken.
pub fn release_transient_hold(lock: &mut WriterLock, session_id: &str) -> (wake: bool)
    ensures
        final(lock)@ == after_transient_release(old(lock)@, session_id@),
        wake == (old(lock)@ == Some((session_id@, false))),
{
    let ours_and_transient: bool = lock.is_held_by(session_id) && !lock.exclusively_held();
    if ours_and_transient {
        lock.holder = None;
    }
    ours_and_transient
}

/// Rejects a raw write when the lock is held exclusively by a different
/// session (taken via `lock`, typically flashing).
pub fn reject_if_exclusively_locked(lock: &WriterLock, session_id: &str) -> (r: Result<
    (),
    ProtocolError,
>)
    ensures
        r is Err <==> write_refused(lock@, session_id@),
        r matches Err(e) ==> e.says(
            ErrorCode::LockContention,
            "device locked by another session (flashing?); try again after unlock"@,
        ),
{
    if lock.exclusively_held() && !lock.is_held_by(session_id) {
        return Err(
            err_with(
                ErrorCode::LockContention,
                "device locked by another session (flashing?); try again after unlock",
            ),
        );
    }
    Ok(())
}

/// Releases the lock if `session_id` is the current holder. Idempotent when
/// nobody holds it; refuses to release a lock a different session holds. On
/// success says whether waiting sessions are to be woken.
pub fn release_lock_if_holder(lock: &mut WriterLock, session_id: &str) -> (r: Result<
    bool,
    ProtocolError,
>)
    ensures
        final(lock)@ == after_release(old(lock)@, session_id@),
        match r {
            Ok(wake) => !held_by_other(old(lock)@, session_id@) && wake == (old(lock)@ is Some),
            Err(e) => held_by_other(old(lock)@, session_id@) && e.says(
                ErrorCode::LockContention,
                "not the lock holder"@,
            ),
        },
{
    if lock.holder.is_none() {
        return Ok(false);
    }
    if lock.is_held_by(session_id) {
        lock.holder = None;
        return Ok(true);
    }
    Err(err_with(ErrorCode::LockContention, "not the lock holder"))
}

/// Re-entry never downgrades: a session that holds exclusively still does
/// after any further request of its own, and after the end of any of its
/// transactions.
pub proof fn law_exclusive_hold_survives_own_transactions(
    sid: Seq<char>,
    preempt: Seq<char>,
    exclusive: bool,
)
    ensures
        after_acquire(Some((sid, true)), sid, preempt, exclusive) == Some((sid, true)),
        after_transient_release(Some((sid, true)), sid) == Some((sid, true)),
{
}

/// Nobody but the holder changes a held lock, short of `force`.
pub proof fn law_others_leave_the_hold_alone(
    held: Option<(Seq<char>, bool)>,
    sid: Seq<char>,
    preempt: Seq<char>,
    exclusive: bool,
)
    requires
        held_by_other(held, sid),
    ensures
        preempt != "force"@ ==> after_acquire(held, sid, preempt, exclusive) == held,
        after_transient_release(held, sid) == held,
        after_release(held, sid) == held,
{
}

/// Once a session was granted an exclusive hold, every other session's plain
/// write is refused and its own is not, until it releases the lock; then
/// nobody's is.
pub proof fn law_exclusive_hold_gates_writes(
    held: Option<(Seq<char>, bool)>,
    sid: Seq<char>,
    other: Seq<char>,
    preempt: Seq<char>,
)
    requires
        sid != other,
        !held_by_other(held, sid) || preempt == "force"@,
    ensures
        ({
            let locked = after_acquire(held, sid, preempt, true);
            &&& locked == Some((sid, true))
            &&& write_refused(locked, other)
            &&& !write_refused(locked, sid)
            &&& after_release(locked, sid) is None
            &&& !write_refused(after_release(locked, sid), other)
        }),
{
}

/// A transaction on a free lock leaves it free again, and never refuses
/// anyone's plain write while it lasts.
pub proof fn law_transaction_restores_free_lock(
    sid: Seq<char>,
    other: Seq<char>,
    preempt: Seq<char>,
)
    ensures
        ({
            let during = after_acquire(None, sid, preempt, false);
            &&& !write_refused(during, other)
            &&& after_transient_release(during, sid) is None
        }),
{
}

/// Releasing is idempotent.
pub proof fn law_release_idempotent(held: Option<(Seq<char>, bool)>, sid: Seq<char>)
    ensures
        after_release(after_release(held, sid), sid) == after_release(held, sid),
{
}

/// Taking a lock over leaves nothing of the former holder's hold: it is named
/// as the one to tell, and the end of a transaction that it had in flight
/// releases nothing.
pub proof fn law_force_ends_the_former_hold(
    sid: Seq<char>,
    was_exclusive: bool,
    other: Seq<char>,
    exclusive: bool,
)
    requires
        sid != other,
    ensures
        ({
            let after = after_acquire(Some((sid, was_exclusive)), other, "force"@, exclusive);
            &&& after == Some((other, exclusive))
            &&& seized_from(Some((sid, was_exclusive)), other, "force"@) == Some(sid)
            &&& after_transient_release(after, sid) == after
            &&& after_release(after, sid) == after
        }),
{
}

/// No transaction is ended from outside but by `force`: not by a session's own
/// requests, nor by one that finds the lock free.
pub proof fn law_only_force_seizes(
    held: Option<(Seq<char>, bool)>,
    sid: Seq<char>,
    preempt: Seq<char>,
)
    ensures
        seized_from(held, sid, preempt) is Some <==> held_by_other(held, sid) && preempt
            == "force"@,
        seized_from(held, sid, preempt) != Some(sid),
{
}

} // verus!
