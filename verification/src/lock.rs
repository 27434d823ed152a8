//! The advisory lock on a store file, as far as it is a matter of deciding.
//!
//! A lock is a marker file beside the store file, created by whoever holds
//! the lock and removed on release. Trying to create the marker, looking at
//! an existing one, waiting and removing are done by the caller; what to do
//! after each try is decided here.

use vstd::prelude::*;

verus! {

/// Age in milliseconds above which a marker counts as abandoned.
pub const LOCK_STALE_MS: u64 = 30_000;

/// Milliseconds to wait between two tries.
pub const LOCK_RETRY_INTERVAL_MS: u64 = 50;

/// Milliseconds after which trying is given up.
pub const LOCK_TIMEOUT_MS: u64 = 5_000;

/// What came of one try to create the marker.
#[derive(Debug, Clone, Copy, PartialEq, Eq, Structural)]
pub enum LockAttempt {
    /// The marker was created: nobody else holds the lock.
    Created,
    /// A marker exists already. `marker_age_ms` is its age, where that could
    /// be found out.
    Held { marker_age_ms: Option<u64> },
    /// The try failed for another reason.
    Failed,
}

/// What to do after a try.
#[derive(Debug, Clone, Copy, PartialEq, Eq, Structural)]
pub enum LockStep {
    /// The lock is held; run the critical section and remove the marker.
    Acquired,
    /// The marker is abandoned: remove it and try again at once.
    RemoveStale,
    /// Wait for the given number of milliseconds and try again.
    Wait { millis: u64 },
    /// Give up: the lock could not be had in time.
    TimedOut,
    /// Give up and report the failure of the try.
    Fail,
}

/// The step that follows a try made `elapsed_ms` after the first one.
pub open spec fn step_after(attempt: LockAttempt, elapsed_ms: u64) -> LockStep {
    match attempt {
        LockAttempt::Created => LockStep::Acquired,
        LockAttempt::Failed => LockStep::Fail,
        LockAttempt::Held { marker_age_ms } => if marker_age_ms matches Some(age) && age
            > LOCK_STALE_MS {
            LockStep::RemoveStale
        } else if elapsed_ms >= LOCK_TIMEOUT_MS {
            LockStep::TimedOut
        } else {
            LockStep::Wait { millis: LOCK_RETRY_INTERVAL_MS }
        },
    }
}

/// Decides what follows a try to create the marker, `elapsed_ms` after the
/// first try. The lock counts as acquired only when the marker was created
/// by this try.
pub fn next_lock_step(attempt: LockAttempt, elapsed_ms: u64) -> (step: LockStep)
    ensures
        step == step_after(attempt, elapsed_ms),
        step is Acquired <==> attempt is Created,
{
    match attempt {
        LockAttempt::Created => LockStep::Acquired,
        LockAttempt::Failed => LockStep::Fail,
        LockAttempt::Held { marker_age_ms } => {
            let stale = match marker_age_ms {
                Some(age) => age > LOCK_STALE_MS,
                None => false,
            };
            if stale {
                LockStep::RemoveStale
            } else if elapsed_ms >= LOCK_TIMEOUT_MS {
                LockStep::TimedOut
            } else {
                LockStep::Wait { millis: LOCK_RETRY_INTERVAL_MS }
            }
        },
    }
}

/// The path of the marker that guards `file_path`.
pub fn lock_path(file_path: &str) -> (path: String)
    ensures
        path@ == file_path@ + ".lock"@,
{
    let mut path = String::new();
    path.append(file_path);
    path.append(".lock");
    path
}

/// However long a marker is held by someone else, trying ends: once the
/// time is up, a try that finds a marker that is not abandoned gives up.
pub proof fn lemma_waiting_is_bounded(marker_age_ms: Option<u64>, elapsed_ms: u64)
    requires
        elapsed_ms >= LOCK_TIMEOUT_MS,
    ensures
        !(step_after(LockAttempt::Held { marker_age_ms }, elapsed_ms) is Wait),
{
}

// ── The protocol ───────────────────────────────────────────────────────────

/// The marker of one store file and the processes that hold its lock.
pub struct LockWorld {
    /// The process that created the marker, where there is a marker.
    pub marker: Option<nat>,
    /// The processes that are inside their critical section.
    pub holding: Set<nat>,
}

/// Whoever holds the lock created the marker that is there.
pub open spec fn lock_is_sound(w: LockWorld) -> bool {
    forall|p: nat| w.holding.contains(p) ==> w.marker == Some(p)
}

/// Process `p`, not holding the lock, tries to create the marker after
/// `elapsed_ms` of trying and does what the step tells it: it enters its
/// critical section if it created the marker, removes a marker that it
/// finds abandoned, and otherwise leaves everything as it is. `age_ms` is
/// the age that it finds of a marker that is there.
pub open spec fn tries(w: LockWorld, p: nat, age_ms: Option<u64>, elapsed_ms: u64, after: LockWorld) -> bool {
    let attempt = match w.marker {
        None => LockAttempt::Created,
        Some(_) => LockAttempt::Held { marker_age_ms: age_ms },
    };
    match step_after(attempt, elapsed_ms) {
        LockStep::Acquired => after == (LockWorld {
            marker: Some(p),
            holding: w.holding.insert(p),
        }),
        LockStep::RemoveStale => after == (LockWorld { marker: None, holding: w.holding }),
        _ => after == w,
    }
}

/// Process `p` leaves its critical section and removes the marker.
pub open spec fn releases(w: LockWorld, p: nat, after: LockWorld) -> bool {
    w.holding.contains(p) && after == (LockWorld { marker: None, holding: w.holding.remove(p) })
}

/// No critical section lasts as long as it takes a marker to count as
/// abandoned: a marker that is found older than that has no holder.
pub open spec fn holders_are_prompt(w: LockWorld, age_ms: Option<u64>) -> bool {
    (age_ms matches Some(age) && age > LOCK_STALE_MS) ==> w.holding == Set::<nat>::empty()
}

/// Critical sections on one file do not overlap: as long as none of them
/// outlasts the age at which a marker counts as abandoned, a try keeps the
/// lock sound, and at most one process holds a sound lock.
pub proof fn lemma_tries_keep_the_lock_sound(
    w: LockWorld,
    p: nat,
    age_ms: Option<u64>,
    elapsed_ms: u64,
    after: LockWorld,
)
    requires
        lock_is_sound(w),
        !w.holding.contains(p),
        holders_are_prompt(w, age_ms),
        tries(w, p, age_ms, elapsed_ms, after),
    ensures
        lock_is_sound(after),
        forall|a: nat, b: nat| after.holding.contains(a) && after.holding.contains(b) ==> a == b,
{
    if w.marker is None {
        assert forall|q: nat| w.holding.contains(q) implies false by {
            assert(w.marker == Some(q));
        }
    }
}

/// Leaving a critical section keeps the lock sound, and leaves the file
/// without a holder.
pub proof fn lemma_release_keeps_the_lock_sound(w: LockWorld, p: nat, after: LockWorld)
    requires
        lock_is_sound(w),
        releases(w, p, after),
    ensures
        lock_is_sound(after),
        after.holding == Set::<nat>::empty(),
{
    assert forall|q: nat| after.holding.contains(q) implies false by {
        assert(w.holding.contains(q));
        assert(w.marker == Some(q));
        assert(w.marker == Some(p));
    }
    assert(after.holding =~= Set::<nat>::empty());
}

} // verus!
