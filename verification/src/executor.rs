//! The kernel executor: the set of spawned kernel tasks, their run queue
//! and the wakers handed out for them.
use vstd::prelude::*;
use std::collections::BTreeSet;
use crossbeam_queue::ArrayQueue;
use crate::queue::{task_queue_items, task_queue_capacity, new_task_queue, push_task_id, pop_task_id, task_queue_is_empty};
use crate::kernel::{Kernel, KernelView, running_task_id};
use crate::task::{Task, TaskState};

verus! {

/// How many task ids the run queue holds.
pub const TASK_QUEUE_CAPACITY: usize = 100;

/// The executor's own state. Task records live in the kernel's registry;
/// the executor keeps the ids it owns, the queue of ids waiting to be
/// polled and the ids for which a waker has been made.
pub struct Executor {
    pub tasks: BTreeSet<u64>,
    pub task_queue: ArrayQueue<u64>,
    pub waker_cache: BTreeSet<u64>,
}

impl Executor {
    /// The run queue, front first.
    pub open spec fn queue(&self) -> Seq<u64> {
        task_queue_items(self.task_queue)
    }

    /// The run queue is the one made at start-up and never overfull.
    pub open spec fn wf(&self) -> bool {
        &&& task_queue_capacity(self.task_queue) == TASK_QUEUE_CAPACITY
        &&& self.queue().len() <= TASK_QUEUE_CAPACITY
    }

    /// An executor with no tasks and an empty run queue.
    pub fn new() -> (e: Executor)
        ensures
            e.wf(),
            e.tasks@ == Set::<u64>::empty(),
            e.queue() == Seq::<u64>::empty(),
            e.waker_cache@ == Set::<u64>::empty(),
    {
        Executor {
            tasks: BTreeSet::new(),
            task_queue: new_task_queue(TASK_QUEUE_CAPACITY),
            waker_cache: BTreeSet::new(),
        }
    }

    /// What a task's waker does: put the task id back on the run queue,
    /// silently dropping it when the queue is full.
    pub fn wake(&mut self, task_id: u64)
        requires
            old(self).wf(),
        ensures
            final(self).wf(),
            final(self).tasks@ == old(self).tasks@,
            final(self).waker_cache@ == old(self).waker_cache@,
            final(self).queue() == (if old(self).queue().len() < TASK_QUEUE_CAPACITY {
                old(self).queue().push(task_id)
            } else {
                old(self).queue()
            }),
    {
        let _ = push_task_id(&mut self.task_queue, task_id);
    }

    /// Whether no task id waits on the run queue.
    pub fn is_idle(&self) -> (r: bool)
        ensures
            r == (self.queue().len() == 0),
    {
        task_queue_is_empty(&self.task_queue)
    }
}


/// Whether the executor would poll task `id` now: it is one of the
/// executor's tasks and it is Ready.
pub open spec fn runnable(k: KernelView, id: u64) -> bool {
    k.exec_tasks.contains(id) && k.registry[id].state == TaskState::Ready
}

/// The position in `q` of the first id the executor would poll, or
/// `q.len()` when there is none.
pub open spec fn first_runnable(q: Seq<u64>, k: KernelView) -> int
    decreases q.len(),
{
    if q.len() == 0 {
        0
    } else if runnable(k, q[0]) {
        0
    } else {
        1 + first_runnable(q.drop_first(), k)
    }
}

/// The executor polls only tasks it owns that are Ready: the id at
/// `first_runnable` (when there is one) is runnable, and every id that is
/// skipped before it is not.
pub proof fn lemma_first_runnable_bounds(q: Seq<u64>, k: KernelView)
    ensures
        0 <= first_runnable(q, k) <= q.len(),
        first_runnable(q, k) < q.len() ==> runnable(k, q[first_runnable(q, k)]),
        forall|j: int| 0 <= j < first_runnable(q, k) ==> !runnable(k, #[trigger] q[j]),
    decreases q.len(),
{
    if q.len() > 0 && !runnable(k, q[0]) {
        lemma_first_runnable_bounds(q.drop_first(), k);
        assert forall|j: int| 0 <= j < first_runnable(q, k) implies !runnable(k, #[trigger] q[j]) by {
            if j > 0 {
                assert(q[j] == q.drop_first()[j - 1]);
            }
        }
    }
}

/// The state after spawning `task`.
pub open spec fn spawned(k: KernelView, task: Task) -> KernelView {
    KernelView {
        registry: k.registry.insert(task.id.0, task),
        exec_tasks: k.exec_tasks.insert(task.id.0),
        run_queue: k.run_queue.push(task.id.0),
        ..k
    }
}

/// The state after one step of running the ready kernel tasks: the first
/// runnable id is taken off the queue and becomes current, or, when there
/// is none, the queue is emptied and the current id goes back to the task
/// the executor interrupted.
pub open spec fn next_ready_state(k: KernelView) -> KernelView {
    let q = k.run_queue;
    let i = first_runnable(q, k);
    if i < q.len() {
        KernelView {
            run_queue: q.skip(i + 1),
            current_task_id: q[i],
            waker_cache: k.waker_cache.insert(q[i]),
            ..k
        }
    } else {
        KernelView { run_queue: Seq::<u64>::empty(), current_task_id: running_task_id(k), ..k }
    }
}

/// The state after kernel task `id` completed.
pub open spec fn finished(k: KernelView, id: u64) -> KernelView {
    KernelView {
        registry: k.registry.remove(id),
        exec_tasks: k.exec_tasks.remove(id),
        waker_cache: k.waker_cache.remove(id),
        ..k
    }
}

/// The state after kernel task `id` was woken.
pub open spec fn woken(k: KernelView, id: u64) -> KernelView {
    KernelView {
        run_queue: (if k.run_queue.len() < TASK_QUEUE_CAPACITY { k.run_queue.push(id) } else { k.run_queue }),
        ..k
    }
}

impl Kernel {
    /// Hands a new kernel task to the executor: it is registered, owned by
    /// the executor and queued to be polled. A duplicate id or a full run
    /// queue is a fatal kernel error, which `requires` leaves out.
    pub fn spawn(&mut self, task: Task)
        requires
            old(self).wf(),
            !old(self)@.exec_tasks.contains(task.id.0),
            old(self)@.run_queue.len() < TASK_QUEUE_CAPACITY,
        ensures
            final(self).wf(),
            final(self)@ == spawned(old(self)@, task),
    {
        let id: u64 = task.id.0;
        self.executor.tasks.insert(id);
        self.registry.insert(id, task);
        let _ = push_task_id(&mut self.executor.task_queue, id);
    }

    /// One step of running the ready kernel tasks: pops ids off the run
    /// queue, skipping ids the executor no longer owns and tasks that are
    /// not Ready, until it finds one to poll. That task becomes current
    /// and gets a waker; its id is returned for the caller to poll its
    /// future. When the queue runs dry the current task id goes back to the
    /// task the executor interrupted (the current task of the round-robin
    /// list, or 0 for the kernel) and `None` is returned.
    pub fn next_ready_task(&mut self) -> (r: Option<u64>)
        requires
            old(self).wf(),
        ensures
            final(self).wf(),
            final(self)@ == next_ready_state(old(self)@),
            ({
                let q = old(self)@.run_queue;
                let i = first_runnable(q, old(self)@);
                r == (if i < q.len() { Some(q[i]) } else { None::<u64> })
            }),
            r matches Some(id) ==> {
                &&& old(self)@.exec_tasks.contains(id)
                &&& old(self)@.registry.contains_key(id)
                &&& old(self)@.registry[id].state == TaskState::Ready
            },
    {
        let ghost k0 = self@;
        let ghost q0 = self@.run_queue;
        proof {
            lemma_first_runnable_bounds(q0, k0);
            assert(q0.skip(0) =~= q0);
        }
        let ghost mut popped: int = 0;
        loop
            invariant
                self.wf(),
                old(self)@ == k0,
                q0 == k0.run_queue,
                0 <= popped <= first_runnable(q0, k0),
                first_runnable(q0, k0) <= q0.len(),
                self@.run_queue == q0.skip(popped),
                self@ == (KernelView { run_queue: q0.skip(popped), ..k0 }),
                forall|j: int| 0 <= j < first_runnable(q0, k0) ==> !runnable(k0, #[trigger] q0[j]),
                first_runnable(q0, k0) < q0.len() ==> runnable(k0, q0[first_runnable(q0, k0)]),
            decreases q0.len() - popped,
        {
            match pop_task_id(&mut self.executor.task_queue) {
                None => {
                    proof {
                        assert(q0.skip(popped).len() == 0);
                    }
                    let idx: u64 = self.current_task_idx;
                    self.current_task_id = if !self.idle && (idx as usize) < self.task_list.len() {
                        self.task_list[idx as usize].id.0
                    } else {
                        0
                    };
                    assert(q0.skip(popped) =~= Seq::<u64>::empty());
                    assert(popped == q0.len());
                    assert(first_runnable(q0, k0) == q0.len());
                    assert(self@ == (KernelView {
                        run_queue: Seq::<u64>::empty(),
                        current_task_id: running_task_id(k0),
                        ..k0
                    }));
                    return None;
                },
                Some(id) => {
                    proof {
                        assert(id == q0[popped]);
                        assert(q0.skip(popped).skip(1) =~= q0.skip(popped + 1));
                        popped = popped + 1;
                    }
                    if self.executor.tasks.contains(&id) {
                        let t: Task = *self.registry.get(&id).unwrap();
                        if t.state == TaskState::Ready {
                            self.current_task_id = id;
                            self.executor.waker_cache.insert(id);
                            assert(runnable(k0, id));
                            assert(popped - 1 == first_runnable(q0, k0));
                            assert(self@ == (KernelView {
                                run_queue: q0.skip(first_runnable(q0, k0) + 1),
                                current_task_id: q0[first_runnable(q0, k0)],
                                waker_cache: k0.waker_cache.insert(q0[first_runnable(q0, k0)]),
                                ..k0
                            }));
                            return Some(id);
                        }
                    }
                },
            }
        }
    }

    /// A polled kernel task has completed: it leaves the executor, the
    /// registry and the waker cache.
    pub fn finish_task(&mut self, id: u64)
        requires
            old(self).wf(),
        ensures
            final(self).wf(),
            final(self)@ == finished(old(self)@, id),
    {
        self.executor.tasks.remove(&id);
        self.registry.remove(&id);
        self.executor.waker_cache.remove(&id);
    }

    /// Wakes kernel task `id`: re-queues it on the run queue (dropped when
    /// the queue is full).
    pub fn wake_task(&mut self, id: u64)
        requires
            old(self).wf(),
        ensures
            final(self).wf(),
            final(self)@ == woken(old(self)@, id),
    {
        self.executor.wake(id);
    }
}


/// A finished task is never polled again: once it has left the executor,
/// no run queue makes it the next task to poll, even if its id is still
/// queued.
pub proof fn lemma_finished_task_not_polled(k: KernelView, id: u64, q: Seq<u64>)
    ensures
        ({
            let after = KernelView {
                registry: k.registry.remove(id),
                exec_tasks: k.exec_tasks.remove(id),
                waker_cache: k.waker_cache.remove(id),
                ..k
            };
            let i = first_runnable(q, after);
            i < q.len() ==> q[i] != id
        }),
{
    let after = KernelView {
        registry: k.registry.remove(id),
        exec_tasks: k.exec_tasks.remove(id),
        waker_cache: k.waker_cache.remove(id),
        ..k
    };
    lemma_first_runnable_bounds(q, after);
}

/// The executor polls only live tasks: the task that the next polling
/// step hands out, if any, is one of the executor's own tasks, is
/// registered, and is Ready (so a Terminated or Blocked task is never
/// polled); every id skipped before it names a task that is not both the
/// executor's and Ready.
pub proof fn lemma_polled_task_is_ready(k: KernelView)
    requires
        k.exec_tasks.subset_of(k.registry.dom()),
    ensures
        ({
            let q = k.run_queue;
            let i = first_runnable(q, k);
            &&& i < q.len() ==> {
                &&& k.exec_tasks.contains(q[i])
                &&& k.registry.contains_key(q[i])
                &&& k.registry[q[i]].state == TaskState::Ready
            }
            &&& forall|j: int| 0 <= j < i ==> !(k.exec_tasks.contains(#[trigger] q[j])
                && k.registry[q[j]].state == TaskState::Ready)
        }),
{
    lemma_first_runnable_bounds(k.run_queue, k);
}

} // verus!
