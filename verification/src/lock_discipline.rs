//! A model of the engine's locks, and what the discipline guarantees.
//!
//! Three mutexes and a cell guard the pod. An operation takes the method
//! mutex and looks at the cell that names the owner of the global lock.
//! Where another thread owns it, the operation takes the global mutex and
//! releases it at once: a barrier that it passes when the owner lets go.
//! Then it takes the map mutex, releases the method mutex, does its work
//! and releases the map mutex. A thread that wants the engine for a
//! sequence of operations takes the global mutex and writes its name into
//! the cell; at the end it clears the cell and releases the mutex.
//!
//! The model lets the threads move one step at a time in any order. What
//! is proved of it holds of every interleaving.

use crate::storage_lock::spec_must_wait;
use vstd::prelude::*;

verus! {

/// What a thread found when it looked at the owner of the global lock.
pub struct Look {
    /// How often a name had been written into the cell.
    pub takes: nat,
    /// How often the global mutex had been released.
    pub releases: nat,
    /// Whether another thread owned the global lock.
    pub must_wait: bool,
}

/// Where a thread stands in an operation on the pod.
pub enum Stage {
    /// In no operation.
    Idle,
    /// Holds the method mutex and has not looked at the owner yet.
    Checking,
    /// Holds the method mutex and waits for the global mutex: another
    /// thread owned the global lock at the look.
    Waiting(Look),
    /// Holds the method mutex and, as a barrier, the global mutex.
    Passing(Look),
    /// Holds the method mutex and is past the barrier.
    Passed(Look),
    /// Holds the method mutex and needs no barrier: no other thread owned
    /// the global lock at the look.
    Cleared(Look),
    /// Holds the method mutex and the map mutex.
    Entered(Look),
    /// Holds the map mutex: the operation works on the pod.
    Operating(Look),
}

/// Where a thread stands with the global lock that it takes for itself.
pub enum Hold {
    /// It has none.
    Without,
    /// It holds the global mutex and has not written its name yet.
    Taking,
    /// It holds the global mutex and the cell names it.
    Owning,
    /// It has cleared the cell and still holds the global mutex.
    Leaving,
}

/// The locks of an engine and the threads that use them.
pub struct Locks {
    /// The thread that holds the method mutex.
    pub method_mutex: Option<u64>,
    /// The thread that holds the global mutex.
    pub global_mutex: Option<u64>,
    /// The thread that holds the map mutex.
    pub map_mutex: Option<u64>,
    /// The cell: the thread that owns the global lock.
    pub global_owner: Option<u64>,
    /// Where each thread stands in its operation.
    pub stages: Map<u64, Stage>,
    /// Where each thread stands with a global lock of its own.
    pub holds: Map<u64, Hold>,
    /// How often a name was written into the cell.
    pub takes: nat,
    /// How often the global mutex was released.
    pub releases: nat,
}

/// A step of a thread.
pub enum Move {
    /// Begin an operation: take the method mutex.
    Enter,
    /// Look at the owner and decide whether to wait.
    Look,
    /// Take the global mutex as a barrier.
    TakeBarrier,
    /// Release the global mutex that was the barrier.
    DropBarrier,
    /// Take the map mutex.
    TakeMap,
    /// Release the method mutex.
    LeaveMethod,
    /// End the operation: release the map mutex.
    Finish,
    /// Take the global mutex for a sequence of operations.
    TakeGlobal,
    /// Write the own name into the cell.
    Own,
    /// Clear the cell.
    Disown,
    /// Release the global mutex.
    ReleaseGlobal,
}

impl Stage {
    /// What the thread found at its look, once it has looked.
    pub open spec fn look(self) -> Option<Look> {
        match self {
            Stage::Idle => None,
            Stage::Checking => None,
            Stage::Waiting(look) => Some(look),
            Stage::Passing(look) => Some(look),
            Stage::Passed(look) => Some(look),
            Stage::Cleared(look) => Some(look),
            Stage::Entered(look) => Some(look),
            Stage::Operating(look) => Some(look),
        }
    }

    /// Whether nothing but the map mutex stands between the thread and the
    /// pod, or the thread works on the pod: it is past the look and, where
    /// it had to wait, past the barrier.
    pub open spec fn admitted(self) -> bool {
        self is Passed || self is Cleared || self is Entered || self is Operating
    }
}

impl Locks {
    /// The locks of an engine that was just opened.
    pub open spec fn init() -> Locks {
        Locks {
            method_mutex: None,
            global_mutex: None,
            map_mutex: None,
            global_owner: None,
            stages: Map::empty(),
            holds: Map::empty(),
            takes: 0,
            releases: 0,
        }
    }

    /// Where the thread stands in its operation.
    pub open spec fn stage(self, t: u64) -> Stage {
        if self.stages.contains_key(t) {
            self.stages[t]
        } else {
            Stage::Idle
        }
    }

    /// Where the thread stands with a global lock of its own.
    pub open spec fn hold(self, t: u64) -> Hold {
        if self.holds.contains_key(t) {
            self.holds[t]
        } else {
            Hold::Without
        }
    }

    /// Whether the thread can make the move: it stands where the move
    /// starts, and the mutex that the move takes is free.
    pub open spec fn can(self, t: u64, m: Move) -> bool {
        match m {
            Move::Enter => self.stage(t) is Idle && (self.hold(t) is Without || self.hold(t)
                is Owning) && self.method_mutex is None,
            Move::Look => self.stage(t) is Checking,
            Move::TakeBarrier => self.stage(t) is Waiting && self.global_mutex is None,
            Move::DropBarrier => self.stage(t) is Passing,
            Move::TakeMap => (self.stage(t) is Passed || self.stage(t) is Cleared)
                && self.map_mutex is None,
            Move::LeaveMethod => self.stage(t) is Entered,
            Move::Finish => self.stage(t) is Operating,
            Move::TakeGlobal => self.hold(t) is Without && self.stage(t) is Idle
                && self.global_mutex is None,
            Move::Own => self.hold(t) is Taking,
            Move::Disown => self.hold(t) is Owning && self.stage(t) is Idle,
            Move::ReleaseGlobal => self.hold(t) is Leaving,
        }
    }

    /// What a thread finds that looks at the owner now.
    pub open spec fn look_of(self, t: u64) -> Look {
        Look {
            takes: self.takes,
            releases: self.releases,
            must_wait: spec_must_wait(self.global_owner, t),
        }
    }

    /// The stage of the thread after the move.
    pub open spec fn stage_after(self, t: u64, m: Move) -> Stage {
        match (m, self.stage(t)) {
            (Move::Enter, _) => Stage::Checking,
            (Move::Look, _) => if self.look_of(t).must_wait {
                Stage::Waiting(self.look_of(t))
            } else {
                Stage::Cleared(self.look_of(t))
            },
            (Move::TakeBarrier, Stage::Waiting(look)) => Stage::Passing(look),
            (Move::DropBarrier, Stage::Passing(look)) => Stage::Passed(look),
            (Move::TakeMap, Stage::Passed(look)) => Stage::Entered(look),
            (Move::TakeMap, Stage::Cleared(look)) => Stage::Entered(look),
            (Move::LeaveMethod, Stage::Entered(look)) => Stage::Operating(look),
            (Move::Finish, _) => Stage::Idle,
            (_, stage) => stage,
        }
    }

    /// The hold of the thread after the move.
    pub open spec fn hold_after(self, t: u64, m: Move) -> Hold {
        match m {
            Move::TakeGlobal => Hold::Taking,
            Move::Own => Hold::Owning,
            Move::Disown => Hold::Leaving,
            Move::ReleaseGlobal => Hold::Without,
            _ => self.hold(t),
        }
    }

    /// The locks after the thread has made the move.
    pub open spec fn after(self, t: u64, m: Move) -> Locks {
        Locks {
            method_mutex: match m {
                Move::Enter => Some(t),
                Move::LeaveMethod => None,
                _ => self.method_mutex,
            },
            global_mutex: match m {
                Move::TakeBarrier => Some(t),
                Move::TakeGlobal => Some(t),
                Move::DropBarrier => None,
                Move::ReleaseGlobal => None,
                _ => self.global_mutex,
            },
            map_mutex: match m {
                Move::TakeMap => Some(t),
                Move::Finish => None,
                _ => self.map_mutex,
            },
            global_owner: match m {
                Move::Own => Some(t),
                Move::Disown => None,
                _ => self.global_owner,
            },
            stages: self.stages.insert(t, self.stage_after(t, m)),
            holds: self.holds.insert(t, self.hold_after(t, m)),
            takes: match m {
                Move::Own => self.takes + 1,
                _ => self.takes,
            },
            releases: match m {
                Move::DropBarrier => self.releases + 1,
                Move::ReleaseGlobal => self.releases + 1,
                _ => self.releases,
            },
        }
    }

    /// Whether the thread holds the method mutex by its stage.
    pub open spec fn in_method(self, t: u64) -> bool {
        !(self.stage(t) is Idle) && !(self.stage(t) is Operating)
    }

    /// Whether the thread holds the map mutex by its stage.
    pub open spec fn in_map(self, t: u64) -> bool {
        self.stage(t) is Entered || self.stage(t) is Operating
    }

    /// Whether the thread holds the global mutex by its stage or its hold.
    pub open spec fn in_global(self, t: u64) -> bool {
        self.stage(t) is Passing || !(self.hold(t) is Without)
    }

    /// Whether the thread owns the global lock: it has taken the lock for
    /// a sequence of operations and not yet begun to release it.
    pub open spec fn owns_global_lock(self, t: u64) -> bool {
        self.hold(t) is Owning
    }

    /// What holds of a thread however the threads move.
    pub open spec fn inv_of(self, t: u64) -> bool {
        // each mutex is held by the thread whose stage or hold says so
        &&& self.in_method(t) <==> self.method_mutex == Some(t)
        &&& self.in_map(t) <==> self.map_mutex == Some(t)
        &&& self.in_global(t) <==> self.global_mutex == Some(t)
        // the cell names the thread that has taken the global lock
        &&& self.global_owner == Some(t) <==> self.hold(t) is Owning
        // a thread at the barrier has no lock of its own, and a thread
        // takes and releases a lock of its own between its operations
        &&& self.stage(t) is Waiting || self.stage(t) is Passing ==> self.hold(t) is Without
        &&& self.hold(t) is Taking || self.hold(t) is Leaving ==> self.stage(t) is Idle
        &&& self.stage(t).look() matches Some(look) ==> {
            // what the thread has seen lies in the past
            &&& look.takes <= self.takes
            &&& look.releases <= self.releases
            // it goes to the barrier if and only if it had to wait
            &&& self.stage(t) is Waiting || self.stage(t) is Passing || self.stage(t) is Passed
                ==> look.must_wait
            &&& self.stage(t) is Cleared ==> !look.must_wait
            // it waits while the global mutex is held; it passes the
            // barrier after the mutex was released
            &&& self.stage(t) is Waiting ==> self.global_mutex is Some || look.releases
                < self.releases
            &&& self.stage(t) is Passing || self.stage(t) is Passed || (self.in_map(t)
                && look.must_wait) ==> look.releases < self.releases
            // once it is admitted, the present owner of the global lock,
            // if it is another thread, took the lock after the look
            &&& self.stage(t).admitted() && self.global_owner is Some && self.global_owner
                != Some(t) ==> look.takes < self.takes
        }
    }

    /// What holds of the locks however the threads move.
    pub open spec fn inv(self) -> bool {
        forall|t: u64| #[trigger] self.inv_of(t)
    }
}

/// The locks after the moves of a schedule, one after the other, from an
/// engine that was just opened; `None` where a thread cannot make its move.
pub open spec fn run(schedule: Seq<(u64, Move)>) -> Option<Locks>
    decreases schedule.len(),
{
    if schedule.len() == 0 {
        Some(Locks::init())
    } else {
        let (t, m) = schedule.last();
        match run(schedule.drop_last()) {
            Some(s) if s.can(t, m) => Some(s.after(t, m)),
            _ => None,
        }
    }
}

/// The invariant holds when the engine is opened.
pub proof fn lemma_inv_init()
    ensures
        Locks::init().inv(),
{
}

/// Every move keeps the invariant.
pub proof fn lemma_inv_step(s: Locks, t: u64, m: Move)
    requires
        s.inv(),
        s.can(t, m),
    ensures
        s.after(t, m).inv(),
{
    let s2 = s.after(t, m);
    assert forall|u: u64| #[trigger] s2.inv_of(u) by {
        assert(s.inv_of(u));
        assert(s.inv_of(t));
        if s.global_owner is Some {
            assert(s.inv_of(s.global_owner->Some_0));
        }
        if u != t {
            assert(s2.stage(u) == s.stage(u) && s2.hold(u) == s.hold(u));
        }
    }
}

/// The invariant holds after every schedule.
pub proof fn lemma_inv_always(schedule: Seq<(u64, Move)>)
    requires
        run(schedule) is Some,
    ensures
        run(schedule)->Some_0.inv(),
    decreases schedule.len(),
{
    if schedule.len() > 0 {
        let (t, m) = schedule.last();
        lemma_inv_always(schedule.drop_last());
        lemma_inv_step(run(schedule.drop_last())->Some_0, t, m);
    }
}

/// No two threads work on the pod at once, however the threads move.
pub proof fn lemma_one_operation_at_a_time(schedule: Seq<(u64, Move)>, t: u64, u: u64)
    requires
        run(schedule) is Some,
        run(schedule)->Some_0.stage(t) is Operating,
        run(schedule)->Some_0.stage(u) is Operating,
    ensures
        t == u,
{
    lemma_inv_always(schedule);
    let s = run(schedule)->Some_0;
    assert(s.inv_of(t) && s.inv_of(u));
}

/// A thread that looks at the owner while another thread owns the global
/// lock waits; the owner itself, and every thread while nobody owns the
/// lock, goes on.
pub proof fn lemma_look_under_the_global_lock(s: Locks, t: u64)
    requires
        s.can(t, Move::Look),
    ensures
        s.after(t, Move::Look).stage(t) is Waiting <==> s.global_owner is Some && s.global_owner
            != Some(t),
        s.after(t, Move::Look).stage(t) is Cleared <==> s.global_owner is None || s.global_owner
            == Some(t),
{
}

/// While a thread owns the global lock, it holds the global mutex, and no
/// operation of another thread is admitted to the pod unless it had looked
/// at the owner before the lock was taken. An operation that looked while
/// the lock was owned is admitted only after the global mutex was released.
pub proof fn lemma_operations_under_the_global_lock(schedule: Seq<(u64, Move)>, x: u64, t: u64)
    requires
        run(schedule) is Some,
        run(schedule)->Some_0.owns_global_lock(x),
        t != x,
    ensures
        ({
            let s = run(schedule)->Some_0;
            &&& s.global_owner == Some(x)
            &&& s.global_mutex == Some(x)
            &&& !(s.stage(t) is Passing)
            &&& s.stage(t).admitted() ==> s.stage(t).look()->Some_0.takes < s.takes
            &&& s.stage(t).admitted() && s.stage(t).look()->Some_0.must_wait ==> s.stage(
                t,
            ).look()->Some_0.releases < s.releases
        }),
{
    lemma_inv_always(schedule);
    let s = run(schedule)->Some_0;
    assert(s.inv_of(t) && s.inv_of(x));
}

/// An operation that looked before the global lock was taken may work on
/// the pod while the lock is owned: thread 1 looks, thread 2 takes the
/// lock, thread 1 goes on.
pub proof fn lemma_admitted_before_the_lock_was_taken()
    ensures
        ({
            let schedule = seq![
                (1u64, Move::Enter),
                (1u64, Move::Look),
                (2u64, Move::TakeGlobal),
                (2u64, Move::Own),
                (1u64, Move::TakeMap),
                (1u64, Move::LeaveMethod),
            ];
            &&& run(schedule) is Some
            &&& run(schedule)->Some_0.owns_global_lock(2)
            &&& run(schedule)->Some_0.stage(1) is Operating
        }),
{
    let schedule = seq![
        (1u64, Move::Enter),
        (1u64, Move::Look),
        (2u64, Move::TakeGlobal),
        (2u64, Move::Own),
        (1u64, Move::TakeMap),
        (1u64, Move::LeaveMethod),
    ];
    let s0 = Locks::init();
    let s1 = s0.after(1, Move::Enter);
    let s2 = s1.after(1, Move::Look);
    let s3 = s2.after(2, Move::TakeGlobal);
    let s4 = s3.after(2, Move::Own);
    let s5 = s4.after(1, Move::TakeMap);
    let s6 = s5.after(1, Move::LeaveMethod);
    assert(schedule.take(0) =~= Seq::<(u64, Move)>::empty());
    assert(run(schedule.take(0)) == Some(s0));
    lemma_run_step(schedule, 0);
    assert(run(schedule.take(1)) == Some(s1));
    lemma_run_step(schedule, 1);
    assert(run(schedule.take(2)) == Some(s2));
    lemma_run_step(schedule, 2);
    assert(run(schedule.take(3)) == Some(s3));
    lemma_run_step(schedule, 3);
    assert(run(schedule.take(4)) == Some(s4));
    lemma_run_step(schedule, 4);
    assert(run(schedule.take(5)) == Some(s5));
    lemma_run_step(schedule, 5);
    assert(schedule.take(6) =~= schedule);
    assert(run(schedule) == Some(s6));
}

proof fn lemma_run_step(schedule: Seq<(u64, Move)>, n: int)
    requires
        0 <= n < schedule.len(),
    ensures
        run(schedule.take(n + 1)) == (match run(schedule.take(n)) {
            Some(s) if s.can(schedule[n].0, schedule[n].1) => Some(
                s.after(schedule[n].0, schedule[n].1),
            ),
            _ => None,
        }),
{
    assert(schedule.take(n + 1).drop_last() =~= schedule.take(n));
    assert(schedule.take(n + 1).last() == schedule[n]);
}

} // verus!
