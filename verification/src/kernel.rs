//! The kernel's global state, gathered in one value: the task registry, the
//! service name registry, the init mailbox, the scheduler's task list and
//! the executor.
use vstd::prelude::*;
use std::collections::BTreeMap;
use crate::task::{next_id, Message, Task, TaskId};
use crate::executor::Executor;

verus! {

/// The abstract state of the kernel.
pub struct KernelView {
    /// Tasks reachable from system calls, by id.
    pub registry: Map<u64, Task>,
    /// Service names and the task id that registered each.
    pub services: Map<u64, u64>,
    /// The mailbox that device interrupts fill for the init process.
    pub init_mailbox: Option<Message>,
    /// The task the CPU runs (0: the kernel's own context).
    pub current_task_id: u64,
    /// The next task id to hand out.
    pub next_task_id: u64,
    /// The tasks that the timer schedules round-robin. These records are
    /// kept apart from the registry's: user processes live only here,
    /// kernel tasks only in the registry.
    pub task_list: Seq<Task>,
    /// Index into `task_list` of the running task.
    pub current_task_idx: u64,
    /// Timer ticks seen so far.
    pub tick_count: u64,
    /// Ids of the executor's kernel tasks.
    pub exec_tasks: Set<u64>,
    /// The executor's run queue, front first.
    pub run_queue: Seq<u64>,
    /// Ids for which the executor has made a waker.
    pub waker_cache: Set<u64>,
    /// No task of the list can run and the CPU sits in the kernel's idle
    /// loop.
    pub idle: bool,
}

/// The id of the task that runs outside the executor: the current task of
/// the round-robin list, or 0 (the kernel's own context) when the list is
/// empty or the kernel idles.
pub open spec fn running_task_id(k: KernelView) -> u64 {
    if !k.idle && k.current_task_idx < k.task_list.len() {
        k.task_list[k.current_task_idx as int].id.0
    } else {
        0
    }
}

/// The state after a task id was handed out.
pub open spec fn with_next_id(k: KernelView) -> KernelView {
    KernelView { next_task_id: next_id(k.next_task_id), ..k }
}

/// The state after `task` was filed in the registry under its id.
pub open spec fn registered(k: KernelView, task: Task) -> KernelView {
    KernelView { registry: k.registry.insert(task.id.0, task), ..k }
}

/// The state after `task` was appended to the round-robin list.
pub open spec fn appended(k: KernelView, task: Task) -> KernelView {
    KernelView { task_list: k.task_list.push(task), ..k }
}

/// The kernel's global state.
pub struct Kernel {
    pub registry: BTreeMap<u64, Task>,
    pub services: BTreeMap<u64, u64>,
    pub init_mailbox: Option<Message>,
    pub current_task_id: u64,
    pub next_task_id: u64,
    pub task_list: Vec<Task>,
    pub current_task_idx: u64,
    pub tick_count: u64,
    pub executor: Executor,
    pub idle: bool,
}

impl View for Kernel {
    type V = KernelView;

    open spec fn view(&self) -> KernelView {
        KernelView {
            registry: self.registry@,
            services: self.services@,
            init_mailbox: self.init_mailbox,
            current_task_id: self.current_task_id,
            next_task_id: self.next_task_id,
            task_list: self.task_list@,
            current_task_idx: self.current_task_idx,
            tick_count: self.tick_count,
            exec_tasks: self.executor.tasks@,
            run_queue: self.executor.queue(),
            waker_cache: self.executor.waker_cache@,
            idle: self.idle,
        }
    }
}

impl Kernel {
    /// The invariant every operation keeps: the run queue is the bounded
    /// one made at start-up, the executor's tasks are registered and only
    /// they have wakers, every
    /// registered task is filed under its own id, and the running index is
    /// 0 or lies inside the task list.
    pub open spec fn wf(&self) -> bool {
        &&& self.executor.wf()
        &&& self.executor.tasks@.subset_of(self.registry@.dom())
        &&& self.executor.waker_cache@.subset_of(self.executor.tasks@)
        &&& forall|id: u64| #[trigger] self.registry@.contains_key(id) ==> self.registry@[id].id.0 == id
        &&& self.current_task_idx == 0 || self.current_task_idx < self.task_list@.len()
    }

    /// The state at boot: nothing registered, no tasks, the kernel context
    /// running, and task ids starting at 1.
    pub fn new() -> (k: Kernel)
        ensures
            k.wf(),
            k@.registry == Map::<u64, Task>::empty(),
            k@.services == Map::<u64, u64>::empty(),
            k@.init_mailbox.is_none(),
            k@.current_task_id == 0,
            k@.next_task_id == 1,
            k@.task_list == Seq::<Task>::empty(),
            k@.current_task_idx == 0,
            k@.tick_count == 0,
            k@.exec_tasks == Set::<u64>::empty(),
            k@.run_queue == Seq::<u64>::empty(),
            k@.waker_cache == Set::<u64>::empty(),
            !k@.idle,
    {
        Kernel {
            registry: BTreeMap::new(),
            services: BTreeMap::new(),
            init_mailbox: None,
            current_task_id: 0,
            next_task_id: 1,
            task_list: Vec::new(),
            current_task_idx: 0,
            tick_count: 0,
            executor: Executor::new(),
            idle: false,
        }
    }

    /// Hands out a fresh task id.
    pub fn new_task_id(&mut self) -> (id: TaskId)
        requires
            old(self).wf(),
        ensures
            final(self).wf(),
            id.0 == old(self)@.next_task_id,
            final(self)@ == with_next_id(old(self)@),
    {
        TaskId::new(&mut self.next_task_id)
    }

    /// Adds a task to the registry, replacing any task with the same id.
    pub fn register_task(&mut self, task: Task)
        requires
            old(self).wf(),
        ensures
            final(self).wf(),
            final(self)@ == registered(old(self)@, task),
    {
        self.registry.insert(task.id.0, task);
    }

    /// Appends a task to the scheduler's round-robin list.
    pub fn add_to_task_list(&mut self, task: Task)
        requires
            old(self).wf(),
        ensures
            final(self).wf(),
            final(self)@ == appended(old(self)@, task),
    {
        self.task_list.push(task);
    }
}

} // verus!
