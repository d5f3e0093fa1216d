//! The decisions of the engine's locks.
//!
//! Two locks guard an engine. The instance lock is an advisory lock on a
//! file of the data directory: it keeps a second engine off the directory.
//! The global lock hands one thread the engine for a sequence of
//! operations: while it is held, the operations of other threads wait.
//! The locks themselves belong to the operating system; what is decided
//! about them is decided here.

use crate::storage_const::INSTANCE_LOCK_TIMEOUT_MILLISECONDS;
use vstd::prelude::*;

verus! {

/// How often opening an engine tries again to take the instance lock.
pub const INSTANCE_LOCK_TRY_COUNT: u32 = 100;

/// What to do after an attempt to take the instance lock has failed.
#[derive(Debug, Clone, Copy, PartialEq, Eq, Structural)]
pub enum LockRetry {
    /// Sleep for so many milliseconds, then try again.
    Wait { millis: u64 },
    /// Give up: the lock is not to be had.
    GiveUp,
}

/// The patience of an engine that waits for the instance lock: how many
/// more times it tries, and how long it sleeps before each.
#[derive(Debug, Clone, Copy, PartialEq, Eq, Structural)]
pub struct InstanceLockWait {
    pub tries_left: u32,
    pub pause_millis: u64,
}

impl InstanceLockWait {
    /// The time that is still spent asleep if every attempt fails.
    pub open spec fn spec_remaining_millis(self) -> int {
        self.tries_left * self.pause_millis
    }

    /// The wait that spends `timeout_millis` in `tries` equal pauses.
    pub open spec fn spec_new(timeout_millis: u32, tries: u32) -> InstanceLockWait {
        InstanceLockWait { tries_left: tries, pause_millis: (timeout_millis / tries) as u64 }
    }

    /// The wait that spends `timeout_millis` in `tries` equal pauses. The
    /// pauses are whole milliseconds, so that up to `tries - 1`
    /// milliseconds of the timeout go unused.
    pub fn new(timeout_millis: u32, tries: u32) -> (r: Self)
        requires
            tries > 0,
        ensures
            r == Self::spec_new(timeout_millis, tries),
            timeout_millis - tries < r.spec_remaining_millis() <= timeout_millis,
    {
        let pause: u32 = timeout_millis / tries;
        assert(timeout_millis - tries < tries * pause <= timeout_millis) by (nonlinear_arith)
            requires
                tries > 0,
                pause == timeout_millis / tries,
        ;
        InstanceLockWait { tries_left: tries, pause_millis: pause as u64 }
    }

    /// What the decision after a failed attempt is: a pause and one try
    /// less, or to give up when no try is left.
    pub open spec fn spec_after_failure(self) -> (InstanceLockWait, LockRetry) {
        if self.tries_left == 0 {
            (self, LockRetry::GiveUp)
        } else {
            (
                InstanceLockWait { tries_left: (self.tries_left - 1) as u32, ..self },
                LockRetry::Wait { millis: self.pause_millis },
            )
        }
    }

    /// Decides what follows a failed attempt to take the instance lock.
    pub fn after_failure(&mut self) -> (r: LockRetry)
        ensures
            (*final(self), r) == old(self).spec_after_failure(),
    {
        if self.tries_left == 0 {
            LockRetry::GiveUp
        } else {
            self.tries_left = self.tries_left - 1;
            LockRetry::Wait { millis: self.pause_millis }
        }
    }
}

impl Default for InstanceLockWait {
    /// The wait of an engine that is opened without a word on it: 100 more
    /// tries, 50 milliseconds before each.
    fn default() -> (r: Self)
        ensures
            r == (InstanceLockWait { tries_left: 100, pause_millis: 50 }),
            r.spec_remaining_millis() == INSTANCE_LOCK_TIMEOUT_MILLISECONDS,
    {
        InstanceLockWait::new(INSTANCE_LOCK_TIMEOUT_MILLISECONDS, INSTANCE_LOCK_TRY_COUNT)
    }
}

/// The time that a wait sleeps in all before it gives up.
pub open spec fn total_pause(wait: InstanceLockWait) -> int
    decreases wait.tries_left,
{
    match wait.spec_after_failure().1 {
        LockRetry::GiveUp => 0,
        LockRetry::Wait { millis } => millis + total_pause(wait.spec_after_failure().0),
    }
}

/// A wait whose every attempt fails sleeps once for each of its tries and
/// then gives up: in all, for as long as its tries times its pause.
pub proof fn lemma_total_pause(wait: InstanceLockWait)
    ensures
        total_pause(wait) == wait.spec_remaining_millis(),
    decreases wait.tries_left,
{
    if wait.tries_left > 0 {
        let next = wait.spec_after_failure().0;
        lemma_total_pause(next);
        assert(next.tries_left * next.pause_millis + wait.pause_millis == wait.tries_left
            * wait.pause_millis) by (nonlinear_arith)
            requires
                next.tries_left == wait.tries_left - 1,
                next.pause_millis == wait.pause_millis,
        ;
    } else {
        assert(wait.tries_left * wait.pause_millis == 0) by (nonlinear_arith)
            requires
                wait.tries_left == 0,
        ;
    }
}

/// Whether an operation of the thread `current` has to wait until the
/// global lock is released: it has, where another thread owns the lock.
/// The owner itself goes on, and so does every thread while nobody owns
/// the lock.
pub open spec fn spec_must_wait(global_owner: Option<u64>, current: u64) -> bool {
    match global_owner {
        Some(owner) => owner != current,
        None => false,
    }
}

/// Whether an operation of the thread `current` has to wait until the
/// global lock is released.
pub fn must_wait_for_global_lock(global_owner: Option<u64>, current: u64) -> (r: bool)
    ensures
        r == spec_must_wait(global_owner, current),
{
    match global_owner {
        Some(owner) => owner != current,
        None => false,
    }
}

} // verus!
