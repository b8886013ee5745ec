//! The system-call dispatcher: what each call does to the kernel state,
//! what it returns to user space and what the entry stub must still do
//! (print a byte, copy a message out, halt until the next interrupt).
use vstd::prelude::*;
use crate::kernel::{Kernel, KernelView};
use crate::task::{received, Message, Task, TaskState};
use crate::executor::TASK_QUEUE_CAPACITY;
use crate::interrupts::{input_message, LABEL_SERIAL};
use crate::user::{echo_of, EchoAction};

verus! {

/// Print the byte in `arg1`.
pub const SYS_PRINT: u64 = 1;
/// Terminate the calling task.
pub const SYS_EXIT: u64 = 2;
/// Send the message at address `arg2` to task `arg1`.
pub const SYS_SEND: u64 = 10;
/// Receive the init mailbox's message into the buffer at `arg1`.
pub const SYS_RECV: u64 = 11;
/// Give up the CPU until the next interrupt.
pub const SYS_YIELD: u64 = 12;
/// Set the calling task's priority to `arg1` ticks.
pub const SYS_SET_PRIORITY: u64 = 13;
/// Register the calling task under the service name `arg1`.
pub const SYS_REG_SERVICE: u64 = 14;
/// Look up the task registered under the service name `arg1`.
pub const SYS_GET_SERVICE_PID: u64 = 15;

/// Message buffers of `SYS_SEND` below this address are refused.
pub const USER_MESSAGE_MIN_ADDR: u64 = 0x2000_0000;

/// Returned for an unknown call and for a service that is not registered.
pub const NOT_FOUND: u64 = u64::MAX;

/// What the entry stub must do after the dispatcher returns.
#[derive(Clone, Copy, Debug)]
pub enum SyscallEffect {
    /// Nothing more.
    Nothing,
    /// Write this byte to the serial console.
    Print(u8),
    /// Report that the task with this id exited.
    Exited(u64),
    /// Copy this message to the user buffer at `arg1`.
    Deliver(Message),
    /// Enable interrupts and halt until the next one.
    Halt,
}

/// The value returned to user space in RAX and the effect to perform.
#[derive(Clone, Copy, Debug)]
pub struct SyscallOutcome {
    pub ret: u64,
    pub effect: SyscallEffect,
}

/// Whether the call reads a message from user memory before dispatch
/// (`SYS_SEND` with a buffer address that passes the range check).
pub open spec fn needs_user_message(id: u64, arg2: u64) -> bool {
    id == SYS_SEND && arg2 >= USER_MESSAGE_MIN_ADDR
}

/// Delivering `msg` to the registered task `target`: the message replaces
/// the mailbox; a Blocked target becomes Ready and its waker, if any, is
/// taken and re-queues its task (dropped when the run queue is full).
pub open spec fn send_to(k: KernelView, target: u64, msg: Message) -> KernelView {
    let t = k.registry[target];
    if t.state == TaskState::Blocked {
        let woken = Task { mailbox: Some(msg), state: TaskState::Ready, waker: None, ..t };
        let queue = if t.waker.is_some() && k.run_queue.len() < TASK_QUEUE_CAPACITY {
            k.run_queue.push(t.waker.unwrap())
        } else {
            k.run_queue
        };
        KernelView { registry: k.registry.insert(target, woken), run_queue: queue, ..k }
    } else {
        KernelView { registry: k.registry.insert(target, Task { mailbox: Some(msg), ..t }), ..k }
    }
}

/// Whether a task with id `id` is in the round-robin list.
pub open spec fn listed(tasks: Seq<Task>, id: u64) -> bool {
    exists|i: int| 0 <= i < tasks.len() && (#[trigger] tasks[i]).id.0 == id
}

/// The round-robin list with every task of id `id` marked Terminated, so
/// that the scheduler skips it from the next decision on.
pub open spec fn terminated_in_list(tasks: Seq<Task>, id: u64) -> Seq<Task> {
    tasks.map_values(|t: Task| if t.id.0 == id { Task { state: TaskState::Terminated, ..t } } else { t })
}

/// The state after a system call and its outcome.
pub open spec fn syscall_result(k: KernelView, id: u64, arg1: u64, arg2: u64, msg: Option<Message>) -> (KernelView, SyscallOutcome) {
    let cur = k.current_task_id;
    if id == SYS_PRINT {
        (k, SyscallOutcome { ret: 0, effect: SyscallEffect::Print(arg1 as u8) })
    } else if id == SYS_EXIT {
        let registry = if k.registry.contains_key(cur) {
            k.registry.insert(cur, Task { state: TaskState::Terminated, ..k.registry[cur] })
        } else {
            k.registry
        };
        let effect = if k.registry.contains_key(cur) || listed(k.task_list, cur) {
            SyscallEffect::Exited(cur)
        } else {
            SyscallEffect::Nothing
        };
        (
            KernelView { registry, task_list: terminated_in_list(k.task_list, cur), ..k },
            SyscallOutcome { ret: 0, effect },
        )
    } else if id == SYS_SEND {
        if arg2 < USER_MESSAGE_MIN_ADDR {
            (k, SyscallOutcome { ret: 2, effect: SyscallEffect::Nothing })
        } else if k.registry.contains_key(arg1) {
            (send_to(k, arg1, msg.unwrap()), SyscallOutcome { ret: 0, effect: SyscallEffect::Nothing })
        } else {
            (k, SyscallOutcome { ret: 1, effect: SyscallEffect::Nothing })
        }
    } else if id == SYS_RECV {
        match k.init_mailbox {
            Some(m) => (
                KernelView { init_mailbox: None, ..k },
                SyscallOutcome { ret: 1, effect: SyscallEffect::Deliver(m) },
            ),
            None => (k, SyscallOutcome { ret: 0, effect: SyscallEffect::Nothing }),
        }
    } else if id == SYS_YIELD {
        (k, SyscallOutcome { ret: 0, effect: SyscallEffect::Halt })
    } else if id == SYS_SET_PRIORITY {
        if k.registry.contains_key(cur) {
            (
                KernelView {
                    registry: k.registry.insert(cur, Task { priority: arg1, ..k.registry[cur] }),
                    ..k
                },
                SyscallOutcome { ret: 0, effect: SyscallEffect::Nothing },
            )
        } else {
            (k, SyscallOutcome { ret: 1, effect: SyscallEffect::Nothing })
        }
    } else if id == SYS_REG_SERVICE {
        (
            KernelView { services: k.services.insert(arg1, cur), ..k },
            SyscallOutcome { ret: 0, effect: SyscallEffect::Nothing },
        )
    } else if id == SYS_GET_SERVICE_PID {
        if k.services.contains_key(arg1) {
            (k, SyscallOutcome { ret: k.services[arg1], effect: SyscallEffect::Nothing })
        } else {
            (k, SyscallOutcome { ret: NOT_FOUND, effect: SyscallEffect::Nothing })
        }
    } else {
        (k, SyscallOutcome { ret: NOT_FOUND, effect: SyscallEffect::Nothing })
    }
}

/// Whether the entry stub must read a `Message` from user memory at `arg2`
/// and pass it to `handle_syscall`.
pub fn needs_message(id: u64, arg2: u64) -> (r: bool)
    ensures
        r == needs_user_message(id, arg2),
{
    id == SYS_SEND && arg2 >= USER_MESSAGE_MIN_ADDR
}

impl Kernel {
    /// Marks every task of id `id` in the round-robin list Terminated;
    /// returns whether there was one.
    fn terminate_listed(&mut self, id: u64) -> (found: bool)
        requires
            old(self).wf(),
        ensures
            final(self).wf(),
            found == listed(old(self)@.task_list, id),
            final(self)@ == (KernelView { task_list: terminated_in_list(old(self)@.task_list, id), ..old(self)@ }),
    {
        let ghost tasks = self.task_list@;
        let mut found = false;
        let mut i: usize = 0;
        while i < self.task_list.len()
            invariant
                self.wf(),
                tasks.len() == self.task_list@.len(),
                0 <= i <= tasks.len(),
                self@ == (KernelView { task_list: self.task_list@, ..old(self)@ }),
                tasks == old(self)@.task_list,
                forall|j: int| 0 <= j < i ==> #[trigger] self.task_list@[j] == terminated_in_list(tasks, id)[j],
                forall|j: int| i <= j < tasks.len() ==> #[trigger] self.task_list@[j] == tasks[j],
                found == (exists|j: int| 0 <= j < i && (#[trigger] tasks[j]).id.0 == id),
            decreases tasks.len() - i,
        {
            if self.task_list[i].id.0 == id {
                let mut t: Task = self.task_list[i];
                t.state = TaskState::Terminated;
                self.task_list.set(i, t);
                found = true;
            }
            i = i + 1;
        }
        assert(self.task_list@ =~= terminated_in_list(tasks, id));
        found
    }

    /// Dispatches system call `id` with arguments `arg1` and `arg2` made by
    /// the current task. `user_msg` is the message read from address `arg2`
    /// when `needs_message` says so.
    pub fn handle_syscall(&mut self, id: u64, arg1: u64, arg2: u64, user_msg: Option<Message>) -> (r: SyscallOutcome)
        requires
            old(self).wf(),
            needs_user_message(id, arg2) ==> user_msg.is_some(),
        ensures
            final(self).wf(),
            (final(self)@, r) == syscall_result(old(self)@, id, arg1, arg2, user_msg),
    {
        let cur: u64 = self.current_task_id;
        if id == SYS_PRINT {
            SyscallOutcome { ret: 0, effect: SyscallEffect::Print(arg1 as u8) }
        } else if id == SYS_EXIT {
            let in_registry = match self.registry.get(&cur) {
                Some(t) => {
                    let mut t: Task = *t;
                    t.state = TaskState::Terminated;
                    self.registry.insert(cur, t);
                    true
                },
                None => false,
            };
            let in_list = self.terminate_listed(cur);
            if in_registry || in_list {
                SyscallOutcome { ret: 0, effect: SyscallEffect::Exited(cur) }
            } else {
                SyscallOutcome { ret: 0, effect: SyscallEffect::Nothing }
            }
        } else if id == SYS_SEND {
            if arg2 < USER_MESSAGE_MIN_ADDR {
                return SyscallOutcome { ret: 2, effect: SyscallEffect::Nothing };
            }
            let msg = user_msg.unwrap();
            match self.registry.get(&arg1) {
                Some(t) => {
                    let mut t: Task = *t;
                    t.mailbox = Some(msg);
                    if t.state == TaskState::Blocked {
                        t.state = TaskState::Ready;
                        let w = t.waker;
                        t.waker = None;
                        self.registry.insert(arg1, t);
                        match w {
                            Some(task_id) => self.executor.wake(task_id),
                            None => {},
                        }
                    } else {
                        self.registry.insert(arg1, t);
                    }
                    SyscallOutcome { ret: 0, effect: SyscallEffect::Nothing }
                },
                None => SyscallOutcome { ret: 1, effect: SyscallEffect::Nothing },
            }
        } else if id == SYS_RECV {
            match self.init_mailbox.take() {
                Some(m) => SyscallOutcome { ret: 1, effect: SyscallEffect::Deliver(m) },
                None => SyscallOutcome { ret: 0, effect: SyscallEffect::Nothing },
            }
        } else if id == SYS_YIELD {
            SyscallOutcome { ret: 0, effect: SyscallEffect::Halt }
        } else if id == SYS_SET_PRIORITY {
            match self.registry.get(&cur) {
                Some(t) => {
                    let mut t: Task = *t;
                    t.priority = arg1;
                    self.registry.insert(cur, t);
                    SyscallOutcome { ret: 0, effect: SyscallEffect::Nothing }
                },
                None => SyscallOutcome { ret: 1, effect: SyscallEffect::Nothing },
            }
        } else if id == SYS_REG_SERVICE {
            self.services.insert(arg1, cur);
            SyscallOutcome { ret: 0, effect: SyscallEffect::Nothing }
        } else if id == SYS_GET_SERVICE_PID {
            match self.services.get(&arg1) {
                Some(pid) => SyscallOutcome { ret: *pid, effect: SyscallEffect::Nothing },
                None => SyscallOutcome { ret: NOT_FOUND, effect: SyscallEffect::Nothing },
            }
        } else {
            SyscallOutcome { ret: NOT_FOUND, effect: SyscallEffect::Nothing }
        }
    }
}


/// Name service: once a task has registered a name, looking the name up
/// returns that task's id, whatever a lookup call passes in `arg2`.
pub proof fn lemma_service_lookup_after_register(k: KernelView, name: u64, arg2: u64, arg2_lookup: u64)
    ensures
        ({
            let registered = syscall_result(k, SYS_REG_SERVICE, name, arg2, None).0;
            let lookup = syscall_result(registered, SYS_GET_SERVICE_PID, name, arg2_lookup, None);
            &&& lookup.1.ret == k.current_task_id
            &&& lookup.0 == registered
        }),
{
}

/// Name service: registering one name leaves the lookup of every other
/// name as it was.
pub proof fn lemma_register_keeps_other_services(k: KernelView, name: u64, other: u64, arg2: u64, arg2_lookup: u64)
    requires
        name != other,
    ensures
        syscall_result(syscall_result(k, SYS_REG_SERVICE, name, arg2, None).0, SYS_GET_SERVICE_PID, other, arg2_lookup, None).1
            == syscall_result(k, SYS_GET_SERVICE_PID, other, arg2_lookup, None).1,
{
}

/// IPC: a message sent to a registered task lands in its mailbox (which
/// `Task::receive` hands out next) and the send returns 0; a task that was
/// blocked waiting becomes Ready, and the task its waker belongs to is
/// queued to run again (unless the run queue is full).
pub proof fn lemma_send_then_receive(k: KernelView, target: u64, addr: u64, msg: Message)
    requires
        k.registry.contains_key(target),
        addr >= USER_MESSAGE_MIN_ADDR,
    ensures
        ({
            let (sent, out) = syscall_result(k, SYS_SEND, target, addr, Some(msg));
            &&& out.ret == 0
            &&& sent.registry.contains_key(target)
            &&& sent.registry[target].mailbox == Some(msg)
            &&& sent.registry[target].state != TaskState::Blocked
            &&& (k.registry[target].state == TaskState::Blocked ==> {
                &&& sent.registry[target].state == TaskState::Ready
                &&& sent.registry[target].waker.is_none()
                &&& (k.registry[target].waker.is_some() && k.run_queue.len() < TASK_QUEUE_CAPACITY
                    ==> sent.run_queue == k.run_queue.push(k.registry[target].waker.unwrap()))
            })
        }),
{
}

/// IPC, from wait to delivery: a registered task that polls for a message
/// with an empty mailbox blocks and leaves the waker of `waker_task`; a
/// send to it then returns 0, makes it Ready and queues `waker_task` to
/// run (when the run queue has room); and its next poll receives exactly
/// the message sent, emptying the mailbox.
pub proof fn lemma_wait_send_receive(k: KernelView, target: u64, waker_task: u64, addr: u64, msg: Message)
    requires
        k.registry.contains_key(target),
        k.registry[target].id.0 == target,
        k.registry[target].mailbox.is_none(),
        addr >= USER_MESSAGE_MIN_ADDR,
        k.run_queue.len() < TASK_QUEUE_CAPACITY,
    ensures
        ({
            let (waiting, first) = received(k.registry[target], waker_task);
            let polled = KernelView { registry: k.registry.insert(waiting.id.0, waiting), ..k };
            let (sent, out) = syscall_result(polled, SYS_SEND, target, addr, Some(msg));
            let (done, second) = received(sent.registry[target], waker_task);
            &&& first.is_none()
            &&& waiting.state == TaskState::Blocked
            &&& out.ret == 0
            &&& sent.registry[target].state == TaskState::Ready
            &&& sent.run_queue == k.run_queue.push(waker_task)
            &&& second == Some(msg)
            &&& done.mailbox.is_none()
            &&& done.state == TaskState::Ready
        }),
{
}

/// IPC: a send changes the target's state only when the target is
/// Blocked. A registered target in any other state (Ready, or Terminated
/// after it exited) keeps its state, priority, stacks and waker; only its
/// mailbox now holds the message. The send returns 0 and no other task is
/// touched.
pub proof fn lemma_send_keeps_state_unless_blocked(k: KernelView, target: u64, addr: u64, msg: Message)
    requires
        k.registry.contains_key(target),
        addr >= USER_MESSAGE_MIN_ADDR,
        k.registry[target].state != TaskState::Blocked,
    ensures
        ({
            let (sent, out) = syscall_result(k, SYS_SEND, target, addr, Some(msg));
            let before = k.registry[target];
            let after = sent.registry[target];
            &&& out.ret == 0
            &&& sent.registry.dom() == k.registry.dom()
            &&& forall|id: u64| k.registry.contains_key(id) && id != target ==> #[trigger] sent.registry[id] == k.registry[id]
            &&& after.state == before.state
            &&& after.mailbox == Some(msg)
            &&& after.id == before.id
            &&& after.priority == before.priority
            &&& after.kernel_rsp == before.kernel_rsp
            &&& after.kernel_stack_top == before.kernel_stack_top
            &&& after.waker == before.waker
            &&& sent.run_queue == k.run_queue
            &&& sent.task_list == k.task_list
        }),
{
    let (sent, out) = syscall_result(k, SYS_SEND, target, addr, Some(msg));
    assert(sent.registry.dom() =~= k.registry.dom());
}

/// Priorities: `SYS_SET_PRIORITY` by a registered current task returns 0
/// and sets that task's priority to exactly `arg1`, whatever its value,
/// leaving every other field of it and every other task as they were.
pub proof fn lemma_set_priority_stores_argument(k: KernelView, arg1: u64, arg2: u64, msg: Option<Message>)
    requires
        k.registry.contains_key(k.current_task_id),
    ensures
        ({
            let cur = k.current_task_id;
            let (after, out) = syscall_result(k, SYS_SET_PRIORITY, arg1, arg2, msg);
            &&& out.ret == 0
            &&& after.registry.dom() == k.registry.dom()
            &&& after.registry[cur].priority == arg1
            &&& after.registry[cur].state == k.registry[cur].state
            &&& after.registry[cur].id == k.registry[cur].id
            &&& after.registry[cur].mailbox == k.registry[cur].mailbox
            &&& after.registry[cur].waker == k.registry[cur].waker
            &&& after.registry[cur].kernel_rsp == k.registry[cur].kernel_rsp
            &&& after.registry[cur].kernel_stack_top == k.registry[cur].kernel_stack_top
            &&& forall|id: u64| k.registry.contains_key(id) && id != cur ==> #[trigger] after.registry[id] == k.registry[id]
        }),
{
    let (after, out) = syscall_result(k, SYS_SET_PRIORITY, arg1, arg2, msg);
    assert(after.registry.dom() =~= k.registry.dom());
}

/// IPC: a refused buffer address returns 2 and changes nothing.
pub proof fn lemma_send_refuses_low_buffer(k: KernelView, target: u64, addr: u64, msg: Option<Message>)
    requires
        addr < USER_MESSAGE_MIN_ADDR,
    ensures
        syscall_result(k, SYS_SEND, target, addr, msg)
            == (k, SyscallOutcome { ret: 2, effect: SyscallEffect::Nothing }),
{
}

/// IPC: receiving drains the init mailbox, so an immediate second receive
/// finds it empty and returns 0.
pub proof fn lemma_receive_drains_mailbox(k: KernelView, buf: u64, arg2: u64, buf2: u64, arg2b: u64)
    ensures
        ({
            let (after, first) = syscall_result(k, SYS_RECV, buf, arg2, None);
            let (again, second) = syscall_result(after, SYS_RECV, buf2, arg2b, None);
            &&& first.ret == (if k.init_mailbox.is_some() { 1u64 } else { 0u64 })
            &&& second.ret == 0
            &&& again == after
            &&& after.init_mailbox.is_none()
        }),
{
}

/// Unknown call numbers return `u64::MAX` and change nothing.
pub proof fn lemma_unknown_syscall_is_refused(k: KernelView, id: u64, arg1: u64, arg2: u64, msg: Option<Message>)
    requires
        id != SYS_PRINT,
        id != SYS_EXIT,
        id != SYS_SEND,
        id != SYS_RECV,
        id != SYS_YIELD,
        id != SYS_SET_PRIORITY,
        id != SYS_REG_SERVICE,
        id != SYS_GET_SERVICE_PID,
    ensures
        syscall_result(k, id, arg1, arg2, msg)
            == (k, SyscallOutcome { ret: NOT_FOUND, effect: SyscallEffect::Nothing }),
{
}

/// The serial echo path: a byte typed on the serial console reaches the
/// init mailbox, the init process's next receive returns 1 and hands it
/// over as a serial-input message, and the echo server prints that very
/// byte.
pub proof fn lemma_serial_byte_is_echoed(k: KernelView, byte: u8, buf: u64, arg2: u64)
    ensures
        ({
            let typed = KernelView { init_mailbox: Some(input_message(LABEL_SERIAL, byte)), ..k };
            let (after, out) = syscall_result(typed, SYS_RECV, buf, arg2, None);
            &&& out.ret == 1
            &&& after.init_mailbox.is_none()
            &&& out.effect matches SyscallEffect::Deliver(m) && {
                &&& m.label == LABEL_SERIAL
                &&& echo_of(out.ret, m.label, m.payload[0]) == EchoAction::Echo(byte)
            }
        }),
{
    let m = input_message(LABEL_SERIAL, byte);
    assert(m.payload[0] == byte as u64);
    assert((byte as u64 % 256) as u8 == byte);
}

} // verus!
