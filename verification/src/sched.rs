//! The cooperative scheduler: wake handles, the FIFO run queue, the task
//! table, and the main loop.
//!
//! A waker re-admits exactly one task to the run queue, and admitting an
//! already-queued task changes nothing: duplicate wake-ups before the next
//! poll coalesce.  The main loop pops one runnable task at a time and
//! polls it; a task that reports pending is left suspended — only a future
//! wake re-inserts it — and a completed task's slot is vacated.  With no
//! runnable task the loop falls through to exactly one readiness dispatch
//! per wait (it never spins), and stops once the supplied readiness script
//! is exhausted, the bounded stand-in for a server loop that runs forever.

use vstd::prelude::*;
use vstd::pervasive::VecAdditionalExecFns;
use std::collections::VecDeque;
use crate::conn::ConnectionState;
use crate::handler::{ConnectionHandler, Future};
use crate::reactor::Reactor;

verus! {

/// A capability to re-admit one suspended task to the run queue.
#[derive(Clone, Copy)]
pub struct Waker {
    /// The task this waker is bound to.
    pub task: usize,
}

/// No entry appears twice.
pub open spec fn nodup(q: Seq<usize>) -> bool {
    forall|i: int, j: int| 0 <= i < j < q.len() ==> q[i] != q[j]
}

/// What admitting a task does to the run queue: nothing when it is
/// already queued, else it joins at the back.
pub open spec fn admitted(q: Seq<usize>, t: usize) -> Seq<usize> {
    if q.contains(t) {
        q
    } else {
        q.push(t)
    }
}

/// Law: waking a task twice before it is next polled leaves it queued at
/// most once — the second admission changes nothing at all, and admission
/// never introduces a duplicate into a duplicate-free queue.
pub proof fn lemma_admission_at_most_once(q: Seq<usize>, t: usize)
    requires
        nodup(q),
    ensures
        admitted(admitted(q, t), t) == admitted(q, t),
        nodup(admitted(q, t)),
        admitted(q, t).contains(t),
{
    if !q.contains(t) {
        assert(q.push(t)[q.len() as int] == t);
        assert(q.push(t).contains(t));
        assert forall|i: int, j: int| 0 <= i < j < q.push(t).len() implies q.push(t)[i] != q.push(
            t,
        )[j] by {
            if j < q.len() {
            } else {
                assert(q.push(t)[i] == q[i]);
                assert(!q.contains(t));
                assert(q[i] != t);
            }
        }
    }
}

/// Whether no batch of a readiness script names a registered handle:
/// nothing in the script can wake anything.
pub open spec fn batches_all_unregistered(readiness: Seq<Vec<u64>>, r: Map<u64, Waker>) -> bool {
    forall|i: int, j: int|
        0 <= i < readiness.len() && 0 <= j < readiness[i]@.len() ==> !r.contains_key(
            #[trigger] readiness[i]@[j],
        )
}

/// A slot of the task table: a task, or the gap a completed one left.
pub enum TaskSlot {
    Occupied(ConnectionHandler),
    Vacant,
}

/// The scheduler: the table of all tasks ever admitted (a completed
/// task's slot stays vacant, so ids are never reused) and the FIFO run
/// queue of runnable task ids.
pub struct Scheduler {
    pub tasks: Vec<TaskSlot>,
    pub runnable: VecDeque<usize>,
}

impl Scheduler {
    /// Whether a task id names a task that still exists.
    pub open spec fn live(self, id: int) -> bool {
        0 <= id < self.tasks@.len() && self.tasks@[id] is Occupied
    }

    /// The task behind a live id.
    pub open spec fn task_at(self, id: int) -> ConnectionHandler {
        match self.tasks@[id] {
            TaskSlot::Occupied(h) => h,
            TaskSlot::Vacant => arbitrary(),
        }
    }

    /// The run queue holds each runnable task once, every queued id is
    /// live, and every live task satisfies its own invariant.
    pub open spec fn wf(self) -> bool {
        &&& nodup(self.runnable@)
        &&& forall|i: int|
            0 <= i < self.runnable@.len() ==> self.live(#[trigger] self.runnable@[i] as int)
        &&& forall|id: int| #[trigger] self.live(id) ==> self.task_at(id).wf()
    }

    /// How the scheduler and the reactor fit together while the system
    /// runs.  Every registration belongs to a live, started task watching
    /// that very handle; every started live task stays registered (under
    /// its own handle, to its own waker) until it completes; a live task
    /// that was never polled is still in the run queue; no live task is
    /// over; and no two live tasks watch the same handle.
    pub open spec fn coupled(self, r: Reactor) -> bool {
        &&& forall|fd: u64| #[trigger] r@.contains_key(fd) ==> {
            &&& self.live(r@[fd].task as int)
            &&& self.task_at(r@[fd].task as int).fd == fd
            &&& !(self.task_at(r@[fd].task as int).state is Start)
        }
        &&& forall|id: int| #[trigger] self.live(id) && !(self.task_at(id).state is Start) ==> {
            &&& r@.contains_key(self.task_at(id).fd)
            &&& r@[self.task_at(id).fd] == Waker { task: id as usize }
        }
        &&& forall|id: usize| #[trigger] self.live(id as int) && self.task_at(
            id as int,
        ).state is Start ==> self.runnable@.contains(id)
        &&& forall|id: int| #[trigger] self.live(id) ==> !self.task_at(id).state.is_terminal()
        &&& forall|i: int, j: int| #![trigger self.task_at(i), self.task_at(j)]
            self.live(i) && self.live(j) && i != j ==> self.task_at(i).fd != self.task_at(j).fd
    }

    /// An empty scheduler.
    pub fn new() -> (s: Scheduler)
        ensures
            s.wf(),
            s.tasks@.len() == 0,
            s.runnable@.len() == 0,
    {
        Scheduler { tasks: Vec::new(), runnable: VecDeque::new() }
    }

    /// Admit a new task in the runnable state.  Its handle must not be
    /// watched by any live task already; it gets the next fresh id.
    pub fn spawn(&mut self, task: ConnectionHandler) -> (id: usize)
        requires
            old(self).wf(),
            task.wf(),
            task.state is Start,
            forall|i: int| old(self).live(i) ==> #[trigger] old(self).task_at(i).fd != task.fd,
        ensures
            final(self).wf(),
            id == old(self).tasks@.len(),
            final(self).tasks@ == old(self).tasks@.push(TaskSlot::Occupied(task)),
            final(self).runnable@ == old(self).runnable@.push(id),
            final(self).live(id as int),
            final(self).task_at(id as int) == task,
    {
        let id = self.tasks.len();
        self.tasks.push(TaskSlot::Occupied(task));
        self.runnable.push_back(id);
        proof {
            assert forall|i: int|
                0 <= i < self.runnable@.len() implies self.live(
                #[trigger] self.runnable@[i] as int,
            ) by {
                if i < old(self).runnable@.len() {
                    assert(old(self).live(old(self).runnable@[i] as int));
                    assert(self.tasks@[old(self).runnable@[i] as int] == old(self).tasks@[old(
                        self,
                    ).runnable@[i] as int]);
                }
            }
            assert forall|i: int, j: int|
                0 <= i < j < self.runnable@.len() implies self.runnable@[i] != self.runnable@[j]
            by {
                if j == self.runnable@.len() - 1 {
                    assert(old(self).live(old(self).runnable@[i] as int));
                }
            }
            assert forall|oid: int| #[trigger] self.live(oid) implies self.task_at(oid).wf() by {
                if oid < old(self).tasks@.len() {
                    assert(old(self).live(oid));
                    assert(self.task_at(oid) == old(self).task_at(oid));
                }
            }
        }
        id
    }

    /// The main loop, bounded by a script of readiness batches standing in
    /// for the kernel's reports (a real server loops forever; the script is
    /// the cooperative stop a test harness needs).  While the run queue is
    /// non-empty, pop one task and poll it: a completed task's slot is
    /// vacated (its registration is gone by then), a pending one is left
    /// suspended — only a future wake re-admits it.  With nothing runnable,
    /// dispatch the next readiness batch: one blocking wait per idle pass,
    /// never a spin.  Returns how many waits were issued: one per batch,
    /// and — with nothing runnable, and no batch naming a registered
    /// handle — nothing is ever polled or changed while every batch still
    /// costs exactly one wait.
    pub fn run(&mut self, reactor: &mut Reactor, readiness: &Vec<Vec<u64>>) -> (waits: usize)
        requires
            old(self).wf(),
            old(self).coupled(*old(reactor)),
        ensures
            final(self).wf(),
            final(self).coupled(*final(reactor)),
            final(self).runnable@.len() == 0,
            waits == readiness@.len(),
            old(self).runnable@.len() == 0 && batches_all_unregistered(
                readiness@,
                old(reactor)@,
            ) ==> final(self).tasks == old(self).tasks && final(reactor)@ == old(reactor)@,
    {
        let mut next_batch: usize = 0;
        loop
            invariant
                self.wf(),
                self.coupled(*reactor),
                next_batch <= readiness@.len(),
                old(self).runnable@.len() == 0 && batches_all_unregistered(
                    readiness@,
                    old(reactor)@,
                ) ==> self.tasks == old(self).tasks && reactor@ == old(reactor)@
                    && self.runnable@.len() == 0,
            ensures
                self.wf(),
                self.coupled(*reactor),
                self.runnable@.len() == 0,
                next_batch == readiness@.len(),
                old(self).runnable@.len() == 0 && batches_all_unregistered(
                    readiness@,
                    old(reactor)@,
                ) ==> self.tasks == old(self).tasks && reactor@ == old(reactor)@,
            decreases readiness@.len() - next_batch, self.runnable@.len(),
        {
            let ghost pre = *self;
            let ghost pre_r = *reactor;
            if self.runnable.len() > 0 {
                let popped = self.next_runnable();
                match popped {
                Some(id) => {
                    proof {
                        assert(pre.runnable@.contains(pre.runnable@[0]));
                        assert(pre.live(id as int));
                    }
                    let mut slot = TaskSlot::Vacant;
                    self.tasks.set_and_swap(id, &mut slot);
                    match slot {
                        TaskSlot::Occupied(mut h) => {
                            proof {
                                assert(h == pre.task_at(id as int));
                                assert(h.wf());
                                assert(!h.state.is_terminal());
                                if h.state is Start {
                                    if reactor@.contains_key(h.fd) {
                                        let rid = reactor@[h.fd].task as int;
                                        assert(pre.live(rid));
                                        assert(pre.task_at(rid).fd == h.fd);
                                        assert(!(pre.task_at(rid).state is Start));
                                        assert(rid != id as int);
                                        assert(pre.task_at(rid).fd != pre.task_at(id as int).fd);
                                        assert(false);
                                    }
                                } else {
                                    assert(reactor@.contains_key(pre.task_at(id as int).fd));
                                }
                            }
                            let waker = Waker { task: id };
                            let r = h.poll(waker, reactor);
                            let ghost polled = h;
                            match r {
                                Some(_) => {
                                    proof {
                                        lemma_after_poll(
                                            pre,
                                            pre_r,
                                            *self,
                                            *reactor,
                                            id,
                                            polled,
                                            true,
                                        );
                                    }
                                },
                                None => {
                                    self.tasks.set(id, TaskSlot::Occupied(h));
                                    proof {
                                        assert(self.tasks@ =~= pre.tasks@.update(
                                            id as int,
                                            TaskSlot::Occupied(h),
                                        ));
                                        lemma_after_poll(
                                            pre,
                                            pre_r,
                                            *self,
                                            *reactor,
                                            id,
                                            polled,
                                            false,
                                        );
                                    }
                                },
                            }
                        },
                        TaskSlot::Vacant => {
                            proof {
                                assert(false);
                            }
                        },
                    }
                },
                None => {
                    proof {
                        assert(false);
                    }
                },
                }
            } else {
                if next_batch < readiness.len() {
                    let ghost nb = next_batch as int;
                    let batch = &readiness[next_batch];
                    proof {
                        assert forall|fd: u64| #[trigger] reactor@.contains_key(fd)
                            implies self.live(reactor@[fd].task as int) by {}
                    }
                    reactor.wait(batch, self);
                    next_batch = next_batch + 1;
                    proof {
                            assert forall|t: usize| #[trigger]
                                self.runnable@.contains(t) implies pre.runnable@.contains(t) || (
                            exists|fd: u64|
                                #[trigger] pre_r@.contains_key(fd) && pre_r@[fd].task == t) by {
                                if !pre.runnable@.contains(t) {
                                    let i = choose|i: int|
                                        0 <= i < batch@.len() && reactor@.contains_key(
                                            #[trigger] batch@[i],
                                        ) && reactor@[batch@[i]].task == t;
                                    assert(pre_r@.contains_key(batch@[i]));
                                }
                            }
                        lemma_after_wait(pre, pre_r, *self, *reactor);
                        if old(self).runnable@.len() == 0 && batches_all_unregistered(
                            readiness@,
                            old(reactor)@,
                        ) {
                            assert forall|t: usize| !(#[trigger] self.runnable@.contains(
                                t,
                            )) by {
                                if self.runnable@.contains(t) {
                                    assert(!pre.runnable@.contains(t));
                                    let i = choose|i: int|
                                        0 <= i < batch@.len() && pre_r@.contains_key(
                                            #[trigger] batch@[i],
                                        ) && pre_r@[batch@[i]].task == t;
                                    assert(batch@[i] == readiness@[nb]@[i]);
                                    assert(!old(reactor)@.contains_key(readiness@[nb]@[i]));
                                }
                            }
                            if self.runnable@.len() > 0 {
                                assert(self.runnable@.contains(self.runnable@[0]));
                            }
                            assert(self.runnable@.len() == 0);
                        }
                    }
                } else {
                    break;
                }
            }
        }
        next_batch
    }

    /// Pop the task to poll next, if any.
    fn next_runnable(&mut self) -> (r: Option<usize>)
        requires
            old(self).wf(),
        ensures
            final(self).tasks == old(self).tasks,
            old(self).runnable@.len() == 0 ==> r is None
                && final(self).runnable@ == old(self).runnable@,
            old(self).runnable@.len() > 0 ==> r == Some(old(self).runnable@[0])
                && final(self).runnable@ == old(self).runnable@.skip(1),
            final(self).wf(),
    {
        let r = self.runnable.pop_front();
        proof {
            if old(self).runnable@.len() > 0 {
                assert(self.runnable@ =~= old(self).runnable@.skip(1));
                assert forall|i: int|
                    0 <= i < self.runnable@.len() implies self.live(
                    #[trigger] self.runnable@[i] as int,
                ) by {
                    assert(self.runnable@[i] == old(self).runnable@[i + 1]);
                    assert(old(self).live(old(self).runnable@[i + 1] as int));
                }
                assert forall|i: int, j: int|
                    0 <= i < j < self.runnable@.len() implies self.runnable@[i]
                    != self.runnable@[j] by {
                    assert(self.runnable@[i] == old(self).runnable@[i + 1]);
                    assert(self.runnable@[j] == old(self).runnable@[j + 1]);
                }
            }
            assert forall|id: int| #[trigger] self.live(id) implies self.task_at(id).wf() by {
                assert(old(self).live(id));
                assert(self.task_at(id) == old(self).task_at(id));
            }
        }
        r
    }
}

impl Waker {
    /// Re-admit the bound task to the run queue.  Invoking a waker twice
    /// before its task is next polled still leaves the task queued only
    /// once: an already-queued task is left where it is.
    pub fn wake(&self, sched: &mut Scheduler)
        requires
            old(sched).wf(),
            old(sched).live(self.task as int),
        ensures
            final(sched).wf(),
            final(sched).tasks == old(sched).tasks,
            final(sched).runnable@ == admitted(old(sched).runnable@, self.task),
            final(sched).runnable@.contains(self.task),
    {
        let n = self.runnable_scan(sched);
        if !n {
            sched.runnable.push_back(self.task);
            proof {
                lemma_admission_at_most_once(old(sched).runnable@, self.task);
                assert(sched.runnable@ == admitted(old(sched).runnable@, self.task));
                assert(nodup(sched.runnable@));
                assert forall|i: int|
                    0 <= i < sched.runnable@.len() implies sched.live(
                    #[trigger] sched.runnable@[i] as int,
                ) by {
                    if i < old(sched).runnable@.len() {
                        assert(old(sched).live(old(sched).runnable@[i] as int));
                    }
                }
                assert forall|id: int| #[trigger] sched.live(id) implies sched.task_at(
                    id,
                ).wf() by {
                    assert(old(sched).live(id));
                    assert(sched.task_at(id) == old(sched).task_at(id));
                }
            }
        }
    }

    /// Whether the bound task is queued already.
    fn runnable_scan(&self, sched: &Scheduler) -> (found: bool)
        ensures
            found == sched.runnable@.contains(self.task),
    {
        let n = sched.runnable.len();
        let mut i: usize = 0;
        while i < n
            invariant
                i <= n,
                n == sched.runnable@.len(),
                forall|j: int| 0 <= j < i ==> sched.runnable@[j] != self.task,
            decreases n - i,
        {
            if sched.runnable[i] == self.task {
                return true;
            }
            i = i + 1;
        }
        false
    }
}

/// After popping the queue's head `id` and polling that task, the
/// scheduler/reactor coupling holds again: `h2` is the task as the poll
/// left it, and `done` says whether it completed (slot vacated, handle
/// deregistered) or suspended (slot restored, handle registered).
proof fn lemma_after_poll(
    pre: Scheduler,
    pre_r: Reactor,
    post: Scheduler,
    post_r: Reactor,
    id: usize,
    h2: ConnectionHandler,
    done: bool,
)
    requires
        pre.wf(),
        pre.coupled(pre_r),
        pre.runnable@.len() > 0,
        id == pre.runnable@[0],
        post.runnable@ == pre.runnable@.skip(1),
        h2.wf(),
        h2.fd == pre.task_at(id as int).fd,
        !(h2.state is Start),
        done ==> h2.state.is_terminal() && post_r@ == pre_r@.remove(h2.fd) && post.tasks@
            == pre.tasks@.update(id as int, TaskSlot::Vacant),
        !done ==> !h2.state.is_terminal() && post_r@ == pre_r@.insert(
            h2.fd,
            Waker { task: id },
        ) && post.tasks@ == pre.tasks@.update(id as int, TaskSlot::Occupied(h2)),
    ensures
        post.wf(),
        post.coupled(post_r),
{
    let fd = h2.fd;
    assert(pre.runnable@.contains(id));
    assert(pre.live(id as int));
    assert forall|t: usize| #[trigger] post.runnable@.contains(t) implies pre.runnable@.contains(
        t,
    ) && t != id by {
        let i = choose|i: int| 0 <= i < post.runnable@.len() && post.runnable@[i] == t;
        assert(pre.runnable@[i + 1] == t);
        assert(pre.runnable@[0] != pre.runnable@[i + 1]);
    }
    assert forall|t: usize| pre.runnable@.contains(t) && t != id implies #[trigger] post
        .runnable@.contains(t) by {
        let i = choose|i: int| 0 <= i < pre.runnable@.len() && pre.runnable@[i] == t;
        assert(i != 0);
        assert(post.runnable@[i - 1] == t);
    }
    assert forall|oid: int| #[trigger] post.live(oid) && oid != id as int implies pre.live(oid)
        && post.task_at(oid) == pre.task_at(oid) by {
        assert(post.tasks@[oid] == pre.tasks@[oid]);
    }
    assert forall|oid: int| pre.live(oid) && oid != id as int implies #[trigger] post.live(oid)
        && post.task_at(oid) == pre.task_at(oid) by {
        assert(post.tasks@[oid] == pre.tasks@[oid]);
    }
    // the run queue: duplicate-free, all live
    assert forall|i: int, j: int|
        0 <= i < j < post.runnable@.len() implies post.runnable@[i] != post.runnable@[j] by {
        assert(post.runnable@[i] == pre.runnable@[i + 1]);
        assert(post.runnable@[j] == pre.runnable@[j + 1]);
    }
    assert forall|i: int|
        0 <= i < post.runnable@.len() implies post.live(#[trigger] post.runnable@[i] as int) by {
        assert(post.runnable@[i] == pre.runnable@[i + 1]);
        assert(pre.runnable@[0] != pre.runnable@[i + 1]);
        assert(pre.live(pre.runnable@[i + 1] as int));
    }
    // every live task keeps its own invariant
    assert forall|oid: int| #[trigger] post.live(oid) implies post.task_at(oid).wf() by {
        if oid == id as int {
            assert(!done);
            assert(post.task_at(oid) == h2);
        } else {
            assert(pre.live(oid));
        }
    }
    // registrations point at live, started owners of the very handle
    assert forall|k: u64| #[trigger] post_r@.contains_key(k) implies post.live(
        post_r@[k].task as int,
    ) && post.task_at(post_r@[k].task as int).fd == k && !(post.task_at(
        post_r@[k].task as int,
    ).state is Start) by {
        if !done && k == fd {
            assert(post_r@[k] == (Waker { task: id }));
            assert(post.live(id as int));
            assert(post.task_at(id as int) == h2);
        } else {
            assert(pre_r@.contains_key(k));
            assert(post_r@[k] == pre_r@[k]);
            let rid = pre_r@[k].task as int;
            assert(pre.live(rid));
            assert(pre.task_at(rid).fd == k);
            if rid == id as int {
                assert(k == fd);
                if done {
                    assert(!post_r@.contains_key(fd));
                    assert(false);
                }
            }
        }
    }
    // every started live task is registered under its own handle
    assert forall|oid: int| #[trigger] post.live(oid) && !(post.task_at(oid).state is Start)
        implies post_r@.contains_key(post.task_at(oid).fd) && post_r@[post.task_at(oid).fd] == (
    Waker { task: oid as usize }) by {
        if oid == id as int {
            assert(!done);
            assert(post.task_at(oid) == h2);
        } else {
            assert(pre.live(oid));
            assert(post.task_at(oid) == pre.task_at(oid));
            assert(pre_r@.contains_key(pre.task_at(oid).fd));
            assert(pre.task_at(oid).fd != pre.task_at(id as int).fd);
        }
    }
    // an unpolled live task is still queued
    assert forall|oid: usize| #[trigger] post.live(oid as int) && post.task_at(
        oid as int,
    ).state is Start implies post.runnable@.contains(oid) by {
        if oid == id {
            if done {
                assert(!post.live(oid as int));
            } else {
                assert(post.task_at(oid as int) == h2);
            }
            assert(false);
        }
        assert(pre.live(oid as int));
        assert(pre.runnable@.contains(oid));
    }
    // no live task is over
    assert forall|oid: int| #[trigger] post.live(oid) implies !post.task_at(
        oid,
    ).state.is_terminal() by {
        if oid == id as int {
            assert(!done);
            assert(post.task_at(oid) == h2);
        } else {
            assert(pre.live(oid));
        }
    }
    // live tasks watch distinct handles
    assert forall|i: int, j: int| #![trigger post.task_at(i), post.task_at(j)]
        post.live(i) && post.live(j) && i != j implies post.task_at(i).fd != post.task_at(
        j,
    ).fd by {
        assert(pre.live(i) || i == id as int);
        assert(pre.live(j) || j == id as int);
        if i == id as int {
            assert(post.task_at(i).fd == pre.task_at(i).fd);
            assert(pre.task_at(i).fd != pre.task_at(j).fd);
        } else if j == id as int {
            assert(post.task_at(j).fd == pre.task_at(j).fd);
            assert(pre.task_at(i).fd != pre.task_at(j).fd);
        } else {
            assert(pre.task_at(i).fd != pre.task_at(j).fd);
        }
    }
}

/// After one readiness dispatch the coupling holds again: the reactor and
/// the task table are untouched, and the queue only gained tasks that were
/// registered.
proof fn lemma_after_wait(pre: Scheduler, pre_r: Reactor, post: Scheduler, post_r: Reactor)
    requires
        pre.wf(),
        pre.coupled(pre_r),
        post.wf(),
        post_r@ == pre_r@,
        post.tasks == pre.tasks,
        pre.runnable@.is_prefix_of(post.runnable@),
        forall|t: usize| #[trigger]
            post.runnable@.contains(t) ==> pre.runnable@.contains(t) || (exists|fd: u64|
                #[trigger] pre_r@.contains_key(fd) && pre_r@[fd].task == t),
    ensures
        post.coupled(post_r),
{
    assert forall|oid: int| #[trigger] post.live(oid) implies pre.live(oid) && post.task_at(oid)
        == pre.task_at(oid) by {}
    assert forall|oid: int| pre.live(oid) implies #[trigger] post.live(oid) by {}
    assert forall|k: u64| #[trigger] post_r@.contains_key(k) implies post.live(
        post_r@[k].task as int,
    ) && post.task_at(post_r@[k].task as int).fd == k && !(post.task_at(
        post_r@[k].task as int,
    ).state is Start) by {
        assert(pre_r@.contains_key(k));
        assert(pre.live(pre_r@[k].task as int));
    }
    assert forall|oid: int| #[trigger] post.live(oid) && !(post.task_at(oid).state is Start)
        implies post_r@.contains_key(post.task_at(oid).fd) && post_r@[post.task_at(oid).fd] == (
    Waker { task: oid as usize }) by {
        assert(pre.live(oid));
    }
    assert forall|oid: usize| #[trigger] post.live(oid as int) && post.task_at(
        oid as int,
    ).state is Start implies post.runnable@.contains(oid) by {
        assert(pre.live(oid as int));
        assert(pre.runnable@.contains(oid));
        let i = choose|i: int| 0 <= i < pre.runnable@.len() && pre.runnable@[i] == oid;
        assert(pre.runnable@ =~= post.runnable@.subrange(0, pre.runnable@.len() as int));
        assert(post.runnable@[i] == pre.runnable@[i]);
    }
    assert forall|oid: int| #[trigger] post.live(oid) implies !post.task_at(
        oid,
    ).state.is_terminal() by {
        assert(pre.live(oid));
    }
    assert forall|i: int, j: int| #![trigger post.task_at(i), post.task_at(j)]
        post.live(i) && post.live(j) && i != j implies post.task_at(i).fd != post.task_at(
        j,
    ).fd by {
        assert(pre.task_at(i).fd != pre.task_at(j).fd);
    }
}

/// Law: a live task that is not queued for polling is always reachable by
/// a readiness event — its handle is registered, and the registered waker
/// is bound to it.  A task that reported pending can therefore never stall
/// for want of a registration.
pub proof fn lemma_pending_task_is_registered(s: Scheduler, r: Reactor, id: usize)
    requires
        s.wf(),
        s.coupled(r),
        s.live(id as int),
        !s.runnable@.contains(id),
    ensures
        r@.contains_key(s.task_at(id as int).fd),
        r@[s.task_at(id as int).fd] == (Waker { task: id }),
{
    assert(!(s.task_at(id as int).state is Start));
}

} // verus!
