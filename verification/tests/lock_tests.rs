use mulch_core::lock::{
    lock_path, next_lock_step, LockAttempt, LockStep, LOCK_RETRY_INTERVAL_MS, LOCK_STALE_MS,
    LOCK_TIMEOUT_MS,
};

#[test]
fn lock_constants() {
    assert_eq!(LOCK_STALE_MS, 30_000);
    assert_eq!(LOCK_RETRY_INTERVAL_MS, 50);
    assert_eq!(LOCK_TIMEOUT_MS, 5_000);
    assert_eq!(lock_path("dir/rust.jsonl"), "dir/rust.jsonl.lock");
    assert_eq!(lock_path(""), ".lock");
}

#[test]
fn lock_is_held_only_by_who_created_the_marker() {
    assert_eq!(next_lock_step(LockAttempt::Created, 0), LockStep::Acquired);
    assert_eq!(next_lock_step(LockAttempt::Created, 1_000_000), LockStep::Acquired);
    for elapsed in [0, 49, 4_999, 5_000, 60_000] {
        for age in [None, Some(0), Some(30_000), Some(30_001), Some(u64::MAX)] {
            let step = next_lock_step(LockAttempt::Held { marker_age_ms: age }, elapsed);
            assert_ne!(step, LockStep::Acquired);
        }
        assert_eq!(next_lock_step(LockAttempt::Failed, elapsed), LockStep::Fail);
    }
}

#[test]
fn lock_waits_reaps_and_gives_up() {
    let held = |age| LockAttempt::Held { marker_age_ms: age };
    assert_eq!(next_lock_step(held(Some(10)), 0), LockStep::Wait { millis: 50 });
    assert_eq!(next_lock_step(held(None), 4_999), LockStep::Wait { millis: 50 });
    assert_eq!(next_lock_step(held(Some(30_000)), 4_999), LockStep::Wait { millis: 50 });
    assert_eq!(next_lock_step(held(Some(30_001)), 0), LockStep::RemoveStale);
    assert_eq!(next_lock_step(held(Some(30_001)), 5_000), LockStep::RemoveStale);
    assert_eq!(next_lock_step(held(Some(30_000)), 5_000), LockStep::TimedOut);
    assert_eq!(next_lock_step(held(None), 5_000), LockStep::TimedOut);
    assert_eq!(next_lock_step(held(Some(0)), u64::MAX), LockStep::TimedOut);
}
