use serial_tether::error::ErrorCode;
use serial_tether::lock::{
    acquire_lock, reject_if_exclusively_locked, release_lock_if_holder, release_transient_hold,
    LockAttempt, LockHold, WriterLock,
};

fn held(session_id: &str, exclusive: bool) -> WriterLock {
    WriterLock { holder: Some(LockHold { session_id: session_id.into(), exclusive }) }
}

#[test]
fn acquire_lock_reentry_never_downgrades_exclusive() {
    let mut lock = WriterLock::default();

    // Fresh, non-exclusive acquire (like `run`).
    assert_eq!(acquire_lock(&mut lock, "s1", "queue", false).unwrap(), LockAttempt::Granted);
    assert!(!lock.holder.as_ref().unwrap().exclusive);

    // Same session re-enters non-exclusively: still non-exclusive.
    assert_eq!(acquire_lock(&mut lock, "s1", "queue", false).unwrap(), LockAttempt::Granted);
    assert!(!lock.holder.as_ref().unwrap().exclusive);

    // Same session upgrades to exclusive (like `lock` while a `run` is
    // already holding the lock).
    assert_eq!(acquire_lock(&mut lock, "s1", "queue", true).unwrap(), LockAttempt::Granted);
    assert!(lock.holder.as_ref().unwrap().exclusive);

    // A later non-exclusive re-entry (another `run`) must not downgrade it.
    assert_eq!(acquire_lock(&mut lock, "s1", "queue", false).unwrap(), LockAttempt::Granted);
    assert!(lock.holder.as_ref().unwrap().exclusive);
}

#[test]
fn acquire_lock_fail_preempt_reports_contention() {
    let mut lock = WriterLock::default();
    acquire_lock(&mut lock, "s1", "queue", false).unwrap();

    let err = acquire_lock(&mut lock, "s2", "fail", true).unwrap_err();
    assert_eq!(err.code, ErrorCode::LockContention.as_i32());
    assert_eq!(lock.holder.as_ref().unwrap().session_id, "s1");
}

#[test]
fn acquire_lock_force_preempt_swaps_holder() {
    let mut lock = WriterLock::default();
    acquire_lock(&mut lock, "s1", "queue", false).unwrap();

    assert_eq!(acquire_lock(&mut lock, "s2", "force", true).unwrap(), LockAttempt::Granted);
    let holder = lock.holder.clone().unwrap();
    assert_eq!(holder.session_id, "s2");
    assert!(holder.exclusive);
    assert!(!lock.is_held_by("s1"));
    // The end of the former holder's transaction releases nothing.
    assert!(!release_transient_hold(&mut lock, "s1"));
    assert!(lock.is_held_by("s2"));
}

#[test]
fn acquire_lock_queue_waits_for_release() {
    let mut lock = WriterLock::default();
    acquire_lock(&mut lock, "s1", "queue", false).unwrap();

    assert_eq!(acquire_lock(&mut lock, "s2", "queue", true).unwrap(), LockAttempt::Wait);
    assert!(lock.is_held_by("s1"));

    // The release wakes waiters, and the next attempt succeeds.
    assert!(release_lock_if_holder(&mut lock, "s1").unwrap());
    assert_eq!(acquire_lock(&mut lock, "s2", "queue", true).unwrap(), LockAttempt::Granted);
    let holder = lock.holder.clone().unwrap();
    assert_eq!(holder.session_id, "s2");
    assert!(holder.exclusive);
}

#[test]
fn release_transient_hold_clears_own_non_exclusive_hold() {
    let mut lock = held("s1", false);
    assert!(release_transient_hold(&mut lock, "s1"));
    assert!(lock.holder.is_none());
}

#[test]
fn release_transient_hold_leaves_exclusive_hold_alone() {
    // An explicit `lock` upgraded the hold while `run` was in flight (or
    // held it before `run` even started) — `run`'s end must not clear it.
    let mut lock = held("s1", true);
    assert!(!release_transient_hold(&mut lock, "s1"));
    assert!(lock.holder.is_some());
}

#[test]
fn release_transient_hold_ignores_other_sessions() {
    let mut lock = held("s2", false);
    assert!(!release_transient_hold(&mut lock, "s1"));
    assert!(lock.holder.is_some());
}

#[test]
fn reject_if_exclusively_locked_allows_free_and_non_exclusive() {
    let lock = WriterLock::default();
    assert!(reject_if_exclusively_locked(&lock, "s1").is_ok());

    let lock = held("s2", false);
    assert!(reject_if_exclusively_locked(&lock, "s1").is_ok());
}

#[test]
fn reject_if_exclusively_locked_allows_own_exclusive_hold() {
    let lock = held("s1", true);
    assert!(reject_if_exclusively_locked(&lock, "s1").is_ok());
}

#[test]
fn reject_if_exclusively_locked_blocks_other_sessions_send() {
    let lock = held("s2", true);
    let err = reject_if_exclusively_locked(&lock, "s1").unwrap_err();
    assert_eq!(err.code, ErrorCode::LockContention.as_i32());
    assert_eq!(
        err.message,
        "device locked by another session (flashing?); try again after unlock"
    );
}

#[test]
fn release_lock_if_holder_is_idempotent_when_free() {
    let mut lock = WriterLock::default();
    assert!(release_lock_if_holder(&mut lock, "s1").is_ok());
}

#[test]
fn release_lock_if_holder_releases_own_hold() {
    let mut lock = held("s1", true);
    release_lock_if_holder(&mut lock, "s1").unwrap();
    assert!(lock.holder.is_none());
}

#[test]
fn release_lock_if_holder_refuses_other_sessions() {
    let mut lock = held("s2", true);
    let err = release_lock_if_holder(&mut lock, "s1").unwrap_err();
    assert_eq!(err.code, ErrorCode::LockContention.as_i32());
    // Left untouched — still held by s2.
    assert_eq!(lock.holder.as_ref().unwrap().session_id, "s2");
    assert_eq!(err.message, "not the lock holder");
}

#[test]
fn holder_is_reported() {
    let lock = held("s2", true);
    assert_eq!(lock.holder_id().unwrap(), "s2");
    assert!(lock.exclusively_held());
    let free = WriterLock::new();
    assert!(free.holder_id().is_none());
    assert!(!free.exclusively_held());
}
