//! The readiness registry.
//!
//! The reactor owns the mapping from each watched I/O handle to the waker
//! that should run when the handle becomes ready.  Delivery is assumed
//! level-triggered: notifications repeat while a handle stays ready, so a
//! task that consumes only part of the available data is woken again
//! without registering anew.  The blocking kernel wait itself lives
//! outside; `wait` here dispatches one batch of readiness notifications,
//! exactly what the kernel would report, to the registered wakers.

use vstd::prelude::*;
use std::collections::HashMap;
use crate::sched::{admitted, Scheduler, Waker};

verus! {

broadcast use vstd::std_specs::hash::group_hash_axioms;

/// Maps each watched handle to the waker of the task awaiting it; one
/// active registration per handle.
pub struct Reactor {
    registrations: HashMap<u64, Waker>,
}

impl View for Reactor {
    type V = Map<u64, Waker>;

    closed spec fn view(&self) -> Map<u64, Waker> {
        self.registrations@
    }
}

impl Reactor {
    /// An empty registry.
    pub fn new() -> (r: Reactor)
        ensures
            r@ == Map::<u64, Waker>::empty(),
    {
        Reactor { registrations: HashMap::new() }
    }

    /// Register interest in a handle, storing the waker to run when it
    /// becomes ready.  A second registration for the same handle replaces
    /// the first.
    pub fn add(&mut self, fd: u64, waker: Waker)
        ensures
            final(self)@ == old(self)@.insert(fd, waker),
    {
        self.registrations.insert(fd, waker);
    }

    /// Drop the registration for a handle.  This must happen no later than
    /// the handle's closure: a handle the kernel reuses would otherwise
    /// wake an unrelated task.
    pub fn remove(&mut self, fd: u64)
        ensures
            final(self)@ == old(self)@.remove(fd),
    {
        self.registrations.remove(&fd);
    }

    /// The waker registered for a handle, if any.
    pub fn lookup(&self, fd: u64) -> (w: Option<Waker>)
        ensures
            match w {
                Some(wk) => self@.contains_key(fd) && self@[fd] == wk,
                None => !self@.contains_key(fd),
            },
    {
        match self.registrations.get(&fd) {
            Some(w) => Some(*w),
            None => None,
        }
    }

    /// Dispatch one batch of readiness notifications: for every ready
    /// handle with a registration, run its waker; a ready handle without
    /// one is dropped silently (its deregistration raced with delivery).
    /// Tasks already queued are not duplicated, and the queue's existing
    /// order is kept.
    pub fn wait(&self, ready: &Vec<u64>, sched: &mut Scheduler)
        requires
            old(sched).wf(),
            forall|fd: u64| #[trigger] self@.contains_key(fd) ==> old(sched).live(
                self@[fd].task as int,
            ),
        ensures
            final(sched).wf(),
            final(sched).tasks == old(sched).tasks,
            old(sched).runnable@.is_prefix_of(final(sched).runnable@),
            forall|i: int|
                0 <= i < ready@.len() && self@.contains_key(#[trigger] ready@[i])
                    ==> final(sched).runnable@.contains(self@[ready@[i]].task),
            forall|t: usize| #[trigger]
                final(sched).runnable@.contains(t) ==> old(sched).runnable@.contains(t) || exists|
                    i: int,
                |
                    0 <= i < ready@.len() && self@.contains_key(#[trigger] ready@[i])
                        && self@[ready@[i]].task == t,
    {
        let mut k: usize = 0;
        while k < ready.len()
            invariant
                k <= ready@.len(),
                sched.wf(),
                sched.tasks == old(sched).tasks,
                forall|fd: u64| #[trigger] self@.contains_key(fd) ==> sched.live(
                    self@[fd].task as int,
                ),
                old(sched).runnable@.is_prefix_of(sched.runnable@),
                forall|i: int|
                    0 <= i < k && self@.contains_key(#[trigger] ready@[i])
                        ==> sched.runnable@.contains(self@[ready@[i]].task),
                forall|t: usize| #[trigger]
                    sched.runnable@.contains(t) ==> old(sched).runnable@.contains(t) || exists|
                        i: int,
                    |
                        0 <= i < ready@.len() && self@.contains_key(#[trigger] ready@[i])
                            && self@[ready@[i]].task == t,
            decreases ready@.len() - k,
        {
            match self.lookup(ready[k]) {
                Some(w) => {
                    let ghost pre_queue = sched.runnable@;
                    w.wake(sched);
                    proof {
                        assert(sched.runnable@ == admitted(pre_queue, w.task));
                        assert forall|t: usize| pre_queue.contains(t) implies #[trigger] sched
                            .runnable@.contains(t) by {
                            if !pre_queue.contains(w.task) {
                                let j = choose|j: int|
                                    0 <= j < pre_queue.len() && pre_queue[j] == t;
                                assert(sched.runnable@[j] == t);
                            }
                        }
                        if !pre_queue.contains(w.task) {
                            assert(old(sched).runnable@.is_prefix_of(sched.runnable@));
                        }
                        assert forall|t: usize| #[trigger]
                            sched.runnable@.contains(t) implies old(sched).runnable@.contains(t)
                            || exists|i: int|
                            0 <= i < ready@.len() && self@.contains_key(#[trigger] ready@[i])
                                && self@[ready@[i]].task == t by {
                            if pre_queue.contains(t) {
                            } else {
                                assert(t == w.task);
                                assert(self@.contains_key(ready@[k as int]));
                                assert(self@[ready@[k as int]].task == t);
                            }
                        }
                    }
                },
                None => {},
            }
            k = k + 1;
        }
    }
}

} // verus!
