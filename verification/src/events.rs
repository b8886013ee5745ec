//! Everything that can happen to the kernel state, as one kind of step,
//! and the laws that hold over any run of such steps: what a service name
//! maps to, what the init mailbox holds and which stack a task resumes on.
use vstd::prelude::*;
use crate::kernel::{KernelView, with_next_id, registered, appended};
use crate::task::{Message, Task};
use crate::executor::{spawned, next_ready_state, finished, woken, first_runnable, runnable, lemma_first_runnable_bounds};
use crate::interrupts::{
    ScheduleDecision, scheduled, decision, switches, pick_next, ticked, killed, with_input,
    input_message, LABEL_KEYBOARD, LABEL_SERIAL, lemma_saved_stack_is_resumed, lemma_scan_in_range,
};
use crate::syscall::{syscall_result, terminated_in_list, SyscallEffect, SyscallOutcome, SYS_REG_SERVICE, SYS_GET_SERVICE_PID, SYS_RECV, NOT_FOUND};

verus! {

/// One operation on the kernel state once multitasking runs, with its
/// arguments.
pub enum KernelEvent {
    /// `handle_syscall` with a call number, two arguments and the message
    /// read for it.
    Syscall(u64, u64, u64, Option<Message>),
    /// `schedule_next` on an interrupted stack, forced or not.
    Schedule(u64, bool),
    /// `timer_tick` on an interrupted stack.
    TimerTick(u64),
    /// `kill_faulting_task` on an interrupted stack.
    Fault(u64),
    /// `keyboard_input` with a scancode.
    KeyboardInput(u8),
    /// `serial_input` with a byte.
    SerialInput(u8),
    /// `spawn` of a kernel task.
    Spawn(Task),
    /// `next_ready_task`.
    PollNext,
    /// `finish_task` of a kernel task id.
    Finish(u64),
    /// `wake_task` of a kernel task id.
    Wake(u64),
    /// `register_task`.
    Register(Task),
    /// `add_to_task_list`.
    Append(Task),
    /// `new_task_id`.
    NewTaskId,
}

/// The state after one event, as the contract of its operation states it.
pub open spec fn after_event(k: KernelView, e: KernelEvent) -> KernelView {
    match e {
        KernelEvent::Syscall(id, arg1, arg2, msg) => syscall_result(k, id, arg1, arg2, msg).0,
        KernelEvent::Schedule(rsp, force) => scheduled(k, rsp, force),
        KernelEvent::TimerTick(rsp) => scheduled(ticked(k), rsp, false),
        KernelEvent::Fault(rsp) => scheduled(killed(k), rsp, true),
        KernelEvent::KeyboardInput(b) => with_input(k, LABEL_KEYBOARD, b),
        KernelEvent::SerialInput(b) => with_input(k, LABEL_SERIAL, b),
        KernelEvent::Spawn(t) => spawned(k, t),
        KernelEvent::PollNext => next_ready_state(k),
        KernelEvent::Finish(id) => finished(k, id),
        KernelEvent::Wake(id) => woken(k, id),
        KernelEvent::Register(t) => registered(k, t),
        KernelEvent::Append(t) => appended(k, t),
        KernelEvent::NewTaskId => with_next_id(k),
    }
}

/// The state after a run of events, first to last.
pub open spec fn run_events(k: KernelView, es: Seq<KernelEvent>) -> KernelView
    decreases es.len(),
{
    if es.len() == 0 {
        k
    } else {
        run_events(after_event(k, es[0]), es.drop_first())
    }
}

/// Whether the event registers the service name `name`.
pub open spec fn registers(e: KernelEvent, name: u64) -> bool {
    e matches KernelEvent::Syscall(id, arg1, _, _) && id == SYS_REG_SERVICE && arg1 == name
}

/// Whether the event reads or replaces the init mailbox.
pub open spec fn touches_mailbox(e: KernelEvent) -> bool {
    ||| e matches KernelEvent::Syscall(id, _, _, _) && id == SYS_RECV
    ||| e is KeyboardInput
    ||| e is SerialInput
}

/// Only a registration of `name` changes what `name` maps to.
proof fn lemma_events_keep_service(k: KernelView, es: Seq<KernelEvent>, name: u64)
    requires
        forall|i: int| 0 <= i < es.len() ==> !registers(#[trigger] es[i], name),
    ensures
        run_events(k, es).services.contains_key(name) == k.services.contains_key(name),
        k.services.contains_key(name) ==> run_events(k, es).services[name] == k.services[name],
    decreases es.len(),
{
    if es.len() > 0 {
        assert(!registers(es[0], name));
        let next = after_event(k, es[0]);
        assert(next.services.contains_key(name) == k.services.contains_key(name));
        assert(k.services.contains_key(name) ==> next.services[name] == k.services[name]);
        assert forall|i: int| 0 <= i < es.drop_first().len() implies !registers(#[trigger] es.drop_first()[i], name) by {
            assert(es.drop_first()[i] == es[i + 1]);
        }
        lemma_events_keep_service(next, es.drop_first(), name);
    }
}

/// Name service: a name keeps the task that registered it until the name
/// is registered again. Whatever else happens in between (other system
/// calls, interrupts, faults, scheduling, spawning and polling kernel
/// tasks), a lookup returns the id of the task that was current at
/// registration and leaves the state as it was.
pub proof fn lemma_registration_persists(
    k: KernelView,
    name: u64,
    arg2: u64,
    es: Seq<KernelEvent>,
    arg2_lookup: u64,
)
    requires
        forall|i: int| 0 <= i < es.len() ==> !registers(#[trigger] es[i], name),
    ensures
        ({
            let later = run_events(syscall_result(k, SYS_REG_SERVICE, name, arg2, None).0, es);
            let lookup = syscall_result(later, SYS_GET_SERVICE_PID, name, arg2_lookup, None);
            &&& lookup.1.ret == k.current_task_id
            &&& lookup.0 == later
        }),
{
    lemma_events_keep_service(syscall_result(k, SYS_REG_SERVICE, name, arg2, None).0, es, name);
}

/// Name service: a name that nothing has registered is not found, whatever
/// else happened.
pub proof fn lemma_unregistered_service_not_found(k: KernelView, es: Seq<KernelEvent>, name: u64, arg2_lookup: u64)
    requires
        !k.services.contains_key(name),
        forall|i: int| 0 <= i < es.len() ==> !registers(#[trigger] es[i], name),
    ensures
        syscall_result(run_events(k, es), SYS_GET_SERVICE_PID, name, arg2_lookup, None).1.ret == NOT_FOUND,
{
    lemma_events_keep_service(k, es, name);
}

/// Only receives and device input change the init mailbox.
proof fn lemma_events_keep_mailbox(k: KernelView, es: Seq<KernelEvent>)
    requires
        forall|i: int| 0 <= i < es.len() ==> !touches_mailbox(#[trigger] es[i]),
    ensures
        run_events(k, es).init_mailbox == k.init_mailbox,
    decreases es.len(),
{
    if es.len() > 0 {
        assert(!touches_mailbox(es[0]));
        assert forall|i: int| 0 <= i < es.drop_first().len() implies !touches_mailbox(#[trigger] es.drop_first()[i]) by {
            assert(es.drop_first()[i] == es[i + 1]);
        }
        lemma_events_keep_mailbox(after_event(k, es[0]), es.drop_first());
    }
}

/// The serial input path: a byte typed on the serial console waits in the
/// init mailbox through any events that neither receive nor deliver other
/// input; the next receive returns 1, hands over exactly that byte as a
/// serial-input message and empties the mailbox.
pub proof fn lemma_serial_input_reaches_next_receive(
    k: KernelView,
    byte: u8,
    es: Seq<KernelEvent>,
    buf: u64,
    arg2: u64,
)
    requires
        forall|i: int| 0 <= i < es.len() ==> !touches_mailbox(#[trigger] es[i]),
    ensures
        ({
            let later = run_events(with_input(k, LABEL_SERIAL, byte), es);
            let (after, out) = syscall_result(later, SYS_RECV, buf, arg2, None);
            &&& out == SyscallOutcome { ret: 1, effect: SyscallEffect::Deliver(input_message(LABEL_SERIAL, byte)) }
            &&& after.init_mailbox.is_none()
        }),
{
    lemma_events_keep_mailbox(with_input(k, LABEL_SERIAL, byte), es);
}

/// The scheduling input of an event that takes a scheduling decision: the
/// state the decision is taken on, the interrupted stack and whether the
/// switch is forced.
pub open spec fn schedule_input(k: KernelView, e: KernelEvent) -> Option<(KernelView, u64, bool)> {
    match e {
        KernelEvent::Schedule(rsp, force) => Some((k, rsp, force)),
        KernelEvent::TimerTick(rsp) => Some((ticked(k), rsp, false)),
        KernelEvent::Fault(rsp) => Some((killed(k), rsp, true)),
        _ => None,
    }
}

/// Whether the event switches the CPU to task `i` of the list.
pub open spec fn switches_to(k: KernelView, e: KernelEvent, i: int) -> bool {
    match schedule_input(k, e) {
        Some((kt, _, force)) => switches(kt, force) && pick_next(kt.task_list, kt.current_task_idx as int) == i,
        None => false,
    }
}

/// The decision of an event that schedules.
pub open spec fn event_decision(k: KernelView, e: KernelEvent) -> ScheduleDecision {
    let (kt, rsp, force) = schedule_input(k, e).unwrap();
    decision(kt, rsp, force)
}

/// Whether no event of the run switches to task `i`.
pub open spec fn never_switches_to(k: KernelView, es: Seq<KernelEvent>, i: int) -> bool
    decreases es.len(),
{
    es.len() == 0 || (!switches_to(k, es[0], i) && never_switches_to(after_event(k, es[0]), es.drop_first(), i))
}

/// One event, while task `i` is not running and nothing switches to it:
/// it stays off the CPU, keeps its place and its saved stack pointer.
proof fn lemma_event_keeps_idle_task(k: KernelView, e: KernelEvent, i: int)
    requires
        k.current_task_idx < k.task_list.len() < u64::MAX,
        0 <= i < k.task_list.len(),
        k.current_task_idx != i,
        !switches_to(k, e, i),
    ensures
        ({
            let n = after_event(k, e);
            &&& k.task_list.len() <= n.task_list.len() <= k.task_list.len() + 1
            &&& n.current_task_idx < n.task_list.len()
            &&& n.current_task_idx != i
            &&& n.task_list[i].kernel_rsp == k.task_list[i].kernel_rsp
        }),
{
    match schedule_input(k, e) {
        Some((kt, rsp, force)) => {
            assert(kt.task_list.len() == k.task_list.len());
            assert(kt.current_task_idx == k.current_task_idx);
            assert(kt.task_list[i].kernel_rsp == k.task_list[i].kernel_rsp);
            lemma_saved_stack_is_resumed(kt, rsp, force, i);
            let n = kt.task_list.len() as int;
            let cur = kt.current_task_idx as int;
            assert(0 <= (cur + 1) % n < n);
            lemma_scan_in_range(kt.task_list, (cur + 1) % n, n as nat);
            assert(after_event(k, e) == scheduled(kt, rsp, force));
        },
        None => {
            match e {
                KernelEvent::Syscall(id, arg1, arg2, msg) => {
                    let tl = terminated_in_list(k.task_list, k.current_task_id);
                    assert(tl.len() == k.task_list.len());
                    assert(tl[i].kernel_rsp == k.task_list[i].kernel_rsp);
                },
                KernelEvent::Append(t) => {
                    assert(k.task_list.push(t)[i] == k.task_list[i]);
                },
                _ => {},
            }
        },
    }
}

/// Over a run of events none of which switches to task `i`, it stays off
/// the CPU and its saved stack pointer stays as it was.
proof fn lemma_events_keep_idle_task(k: KernelView, es: Seq<KernelEvent>, i: int)
    requires
        k.current_task_idx < k.task_list.len(),
        k.task_list.len() + es.len() < u64::MAX,
        0 <= i < k.task_list.len(),
        k.current_task_idx != i,
        never_switches_to(k, es, i),
    ensures
        ({
            let n = run_events(k, es);
            &&& k.task_list.len() <= n.task_list.len() <= k.task_list.len() + es.len()
            &&& n.current_task_idx < n.task_list.len()
            &&& n.current_task_idx != i
            &&& n.task_list[i].kernel_rsp == k.task_list[i].kernel_rsp
        }),
    decreases es.len(),
{
    if es.len() > 0 {
        lemma_event_keeps_idle_task(k, es[0], i);
        lemma_events_keep_idle_task(after_event(k, es[0]), es.drop_first(), i);
    }
}

/// Switching back resumes the saved stack: when a scheduling event (a
/// decision, a timer tick or a fault) switches away from the running task
/// `i` on the interrupted stack `rsp`, and later, after any run of events
/// (system calls, device input, faults of other tasks, new tasks, kernel
/// task polling, scheduling) none of which switched to `i`, an event
/// switches to `i`, then that event makes `i` current again and resumes
/// it on exactly `rsp`.
pub proof fn lemma_switch_back_resumes_saved_stack(
    k: KernelView,
    first: KernelEvent,
    between: Seq<KernelEvent>,
    last: KernelEvent,
    i: int,
)
    requires
        k.task_list.len() + between.len() + 1 < u64::MAX,
        0 <= i < k.task_list.len(),
        k.current_task_idx == i,
        !k.idle,
        schedule_input(k, first) matches Some((kt, _, force)) && switches(kt, force),
        never_switches_to(after_event(k, first), between, i),
        switches_to(run_events(after_event(k, first), between), last, i),
    ensures
        ({
            let before = run_events(after_event(k, first), between);
            &&& event_decision(before, last).next_rsp == schedule_input(k, first).unwrap().1
            &&& after_event(before, last).current_task_idx == i
        }),
{
    let (kt, rsp, force) = schedule_input(k, first).unwrap();
    assert(after_event(k, first) == scheduled(kt, rsp, force));
    let n = k.task_list.len() as int;
    assert(0 <= (i + 1) % n < n);
    lemma_scan_in_range(kt.task_list, (i + 1) % n, n as nat);
    lemma_saved_stack_is_resumed(kt, rsp, force, i);
    let after = after_event(k, first);
    assert(after.task_list[i].kernel_rsp == rsp);
    lemma_events_keep_idle_task(after, between, i);
    let before = run_events(after, between);
    let (bt, brsp, bforce) = schedule_input(before, last).unwrap();
    assert(bt.task_list[i].kernel_rsp == rsp);
    lemma_saved_stack_is_resumed(bt, brsp, bforce, i);
    assert(after_event(before, last) == scheduled(bt, brsp, bforce));
}

/// The ids that the `Finish` events of a run complete.
pub open spec fn finished_ids(es: Seq<KernelEvent>) -> Set<u64> {
    Set::new(|id: u64| exists|i: int| 0 <= i < es.len() && #[trigger] es[i] == KernelEvent::Finish(id))
}

/// Executor bookkeeping over any run of events: wakers are only ever made
/// for the executor's own tasks, and when no task is spawned, the
/// executor's tasks afterwards are exactly those before minus the ones
/// that completed.
pub proof fn lemma_executor_tasks_over_events(k: KernelView, es: Seq<KernelEvent>)
    requires
        k.waker_cache.subset_of(k.exec_tasks),
    ensures
        run_events(k, es).waker_cache.subset_of(run_events(k, es).exec_tasks),
        (forall|i: int| 0 <= i < es.len() ==> !(#[trigger] es[i] is Spawn))
            ==> run_events(k, es).exec_tasks == k.exec_tasks.difference(finished_ids(es)),
    decreases es.len(),
{
    if es.len() > 0 {
        let next = after_event(k, es[0]);
        if es[0] is PollNext {
            let q = k.run_queue;
            lemma_first_runnable_bounds(q, k);
            if first_runnable(q, k) < q.len() {
                assert(runnable(k, q[first_runnable(q, k)]));
            }
        }
        assert(next.waker_cache.subset_of(next.exec_tasks));
        lemma_executor_tasks_over_events(next, es.drop_first());
        if forall|i: int| 0 <= i < es.len() ==> !(#[trigger] es[i] is Spawn) {
            assert forall|i: int| 0 <= i < es.drop_first().len() implies !(#[trigger] es.drop_first()[i] is Spawn) by {
                assert(es.drop_first()[i] == es[i + 1]);
            }
            assert(!(es[0] is Spawn));
            assert forall|id: u64| #[trigger] finished_ids(es).contains(id) == (
                es[0] == KernelEvent::Finish(id) || finished_ids(es.drop_first()).contains(id)) by {
                if finished_ids(es).contains(id) {
                    let i = choose|i: int| 0 <= i < es.len() && #[trigger] es[i] == KernelEvent::Finish(id);
                    if i > 0 {
                        assert(es.drop_first()[i - 1] == es[i]);
                    }
                }
                if finished_ids(es.drop_first()).contains(id) {
                    let i = choose|i: int| 0 <= i < es.drop_first().len() && #[trigger] es.drop_first()[i] == KernelEvent::Finish(id);
                    assert(es[i + 1] == es.drop_first()[i]);
                }
            }
            assert(run_events(k, es).exec_tasks =~= k.exec_tasks.difference(finished_ids(es)));
        }
    }
}

} // verus!