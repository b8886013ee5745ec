//! Interrupt vectors and the decisions taken in the timer, fault and input
//! interrupt handlers: which task's kernel stack the handler returns on.
use vstd::prelude::*;
use crate::kernel::{Kernel, KernelView, running_task_id};
use crate::task::{Message, Task, TaskState, PROCESS_KERNEL_STACK_SIZE};

verus! {

/// First vector of the primary interrupt controller.
pub const PIC_1_OFFSET: u8 = 32;

/// First vector of the secondary interrupt controller.
pub const PIC_2_OFFSET: u8 = 40;

/// Message label of a keyboard scancode forwarded to the init process.
pub const LABEL_KEYBOARD: u64 = 2;

/// Message label of a serial-port byte forwarded to the init process.
pub const LABEL_SERIAL: u64 = 3;

/// The hardware interrupts the kernel handles.
#[derive(Clone, Copy, Debug)]
pub enum InterruptIndex {
    Timer,
    Keyboard,
    Serial,
}

/// The vector of an interrupt line: the controller offset plus the IRQ.
pub open spec fn vector_of(i: InterruptIndex) -> u8 {
    match i {
        InterruptIndex::Timer => PIC_1_OFFSET,
        InterruptIndex::Keyboard => (PIC_1_OFFSET + 1) as u8,
        InterruptIndex::Serial => (PIC_1_OFFSET + 4) as u8,
    }
}

impl InterruptIndex {
    /// The interrupt vector as a byte.
    pub fn as_u8(self) -> (r: u8)
        ensures
            r == vector_of(self),
    {
        match self {
            InterruptIndex::Timer => PIC_1_OFFSET,
            InterruptIndex::Keyboard => PIC_1_OFFSET + 1,
            InterruptIndex::Serial => PIC_1_OFFSET + 4,
        }
    }

    /// The interrupt vector as an index into the descriptor table.
    pub fn as_usize(self) -> (r: usize)
        ensures
            r == vector_of(self) as usize,
    {
        self.as_u8() as usize
    }
}

/// What an interrupt handler returns to its assembly wrapper: the kernel
/// stack to resume on and, after a task switch, the new task's stack top
/// to install as the privilege-0 stack of the TSS. When `idle` is set no
/// task can run: the interrupted context must not be resumed and the
/// handler enters the kernel's idle loop instead.
#[derive(Clone, Copy, Debug)]
pub struct ScheduleDecision {
    pub next_rsp: u64,
    pub interrupt_stack: Option<u64>,
    pub idle: bool,
}

/// The primary interrupt controller's mask with the lines of the timer
/// (IRQ 0), the keyboard (IRQ 1) and the serial port (IRQ 4) cleared, so
/// that those interrupts are delivered; every other line keeps its bit.
pub fn unmask_device_lines(mask: u8) -> (r: u8)
    ensures
        r & 0x13u8 == 0,
        r & 0xecu8 == mask & 0xecu8,
{
    let r: u8 = mask & 0xec;
    assert((mask & 0xecu8) & 0x13u8 == 0 && (mask & 0xecu8) & 0xecu8 == mask & 0xecu8) by (bit_vector);
    r
}

/// Scanning from `idx` for at most `steps` slots (wrapping around), the
/// first slot whose task is Ready; the slot reached after `steps` moves
/// when none is.
pub open spec fn scan_ready(tasks: Seq<Task>, idx: int, steps: nat) -> int
    decreases steps,
{
    if steps == 0 {
        idx
    } else if tasks[idx].state == TaskState::Ready {
        idx
    } else {
        scan_ready(tasks, (idx + 1) % (tasks.len() as int), (steps - 1) as nat)
    }
}

/// The task chosen to follow slot `cur`: the first Ready task after it in
/// round-robin order (`cur` itself coming last). It is only used when some
/// task is Ready.
pub open spec fn pick_next(tasks: Seq<Task>, cur: int) -> int {
    scan_ready(tasks, (cur + 1) % (tasks.len() as int), tasks.len())
}

/// Whether some task of the list is Ready.
pub open spec fn any_ready(tasks: Seq<Task>) -> bool {
    exists|i: int| 0 <= i < tasks.len() && #[trigger] tasks[i].state == TaskState::Ready
}

/// A priority of 0 counts as 1.
pub open spec fn effective_priority(p: u64) -> u64 {
    if p < 1 { 1 } else { p }
}

/// Whether the running task's slice ends: its priority divides the tick
/// count, it has terminated, or a switch is forced.
pub open spec fn slice_over(k: KernelView, force_switch: bool) -> bool {
    let cur = k.task_list[k.current_task_idx as int];
    ||| k.tick_count % effective_priority(cur.priority) == 0
    ||| cur.state == TaskState::Terminated
    ||| force_switch
}

/// Whether scheduling moves the CPU to another task: the slice is over
/// and a Ready task other than the running one is found.
pub open spec fn switches(k: KernelView, force_switch: bool) -> bool {
    &&& k.task_list.len() >= 1
    &&& slice_over(k, force_switch)
    &&& any_ready(k.task_list)
    &&& pick_next(k.task_list, k.current_task_idx as int) != k.current_task_idx as int
}

/// Whether scheduling enters the idle loop: the slice is over, no task is
/// Ready, and the kernel does not idle yet.
pub open spec fn goes_idle(k: KernelView, force_switch: bool) -> bool {
    &&& k.task_list.len() >= 1
    &&& slice_over(k, force_switch)
    &&& !any_ready(k.task_list)
    &&& !k.idle
}

/// The running task with the interrupted stack pointer saved in it.
pub open spec fn saved_list(k: KernelView, current_rsp: u64) -> Seq<Task> {
    let old_idx = k.current_task_idx as int;
    k.task_list.update(old_idx, Task { kernel_rsp: current_rsp, ..k.task_list[old_idx] })
}

/// The state after a switch: the old task keeps the interrupted stack
/// pointer (unless the kernel was idling, when the interrupted context is
/// the idle loop), the chosen task becomes current.
pub open spec fn switched_state(k: KernelView, current_rsp: u64) -> KernelView {
    let next = pick_next(k.task_list, k.current_task_idx as int);
    KernelView {
        task_list: if k.idle { k.task_list } else { saved_list(k, current_rsp) },
        current_task_idx: next as u64,
        current_task_id: k.task_list[next].id.0,
        idle: false,
        ..k
    }
}

/// The state on entering the idle loop: the old task keeps the interrupted
/// stack pointer, and the CPU belongs to the kernel's own context.
pub open spec fn idle_state(k: KernelView, current_rsp: u64) -> KernelView {
    KernelView { task_list: saved_list(k, current_rsp), current_task_id: 0, idle: true, ..k }
}

/// The state after scheduling.
pub open spec fn scheduled(k: KernelView, current_rsp: u64, force_switch: bool) -> KernelView {
    if switches(k, force_switch) {
        switched_state(k, current_rsp)
    } else if goes_idle(k, force_switch) {
        idle_state(k, current_rsp)
    } else {
        k
    }
}

/// What scheduling hands back to the interrupt wrapper: after a switch the
/// chosen task's saved stack pointer and its stack top; on entering the
/// idle loop the idle mark; otherwise the interrupted stack and no new
/// stack top.
pub open spec fn decision(k: KernelView, current_rsp: u64, force_switch: bool) -> ScheduleDecision {
    if switches(k, force_switch) {
        let next = pick_next(k.task_list, k.current_task_idx as int);
        ScheduleDecision {
            next_rsp: k.task_list[next].kernel_rsp,
            interrupt_stack: Some(k.task_list[next].kernel_stack_top),
            idle: false,
        }
    } else if goes_idle(k, force_switch) {
        ScheduleDecision { next_rsp: current_rsp, interrupt_stack: None, idle: true }
    } else {
        ScheduleDecision { next_rsp: current_rsp, interrupt_stack: None, idle: false }
    }
}

/// The message a device interrupt leaves for the init process: from the
/// kernel (0) to task 1, with the given label and the byte as payload.
pub open spec fn input_message(label: u64, data: u8) -> Message {
    Message { from: 0, to: 1, label, payload: [data as u64, 0u64] }
}

/// The state once the first task of the list runs.
pub open spec fn started(k: KernelView) -> KernelView {
    if k.task_list.len() > 0 {
        KernelView { current_task_idx: 0, current_task_id: k.task_list[0].id.0, idle: false, ..k }
    } else {
        k
    }
}

/// The state with one more timer tick counted (wrapping like an atomic
/// add).
pub open spec fn ticked(k: KernelView) -> KernelView {
    KernelView { tick_count: (if k.tick_count == u64::MAX { 0 } else { (k.tick_count + 1) as u64 }), ..k }
}

/// The state with the running task marked Terminated.
pub open spec fn killed(k: KernelView) -> KernelView {
    let idx = k.current_task_idx as int;
    KernelView {
        task_list: k.task_list.update(idx, Task { state: TaskState::Terminated, ..k.task_list[idx] }),
        ..k
    }
}

/// The state after a device interrupt left `data` for the init process
/// under `label`, replacing whatever the mailbox held.
pub open spec fn with_input(k: KernelView, label: u64, data: u8) -> KernelView {
    KernelView { init_mailbox: Some(input_message(label, data)), ..k }
}

impl Kernel {
    /// Decides which task runs when the interrupt returns. When the
    /// running task's slice is over it looks for the next Ready task in
    /// round-robin order; if that is another task, the interrupted stack
    /// pointer is saved in the old task (unless the kernel was idling), the
    /// new task becomes current and its saved stack pointer is returned
    /// together with its stack top. If no task at all is Ready, the
    /// interrupted stack pointer is saved and the kernel enters its idle
    /// loop instead of resuming the interrupted (terminated) task.
    /// Otherwise nothing changes and the interrupted stack is resumed.
    pub fn schedule_next(&mut self, current_rsp: u64, force_switch: bool) -> (d: ScheduleDecision)
        requires
            old(self).wf(),
        ensures
            final(self).wf(),
            final(self)@ == scheduled(old(self)@, current_rsp, force_switch),
            d == decision(old(self)@, current_rsp, force_switch),
    {
        let n: usize = self.task_list.len();
        if n == 0 {
            return ScheduleDecision { next_rsp: current_rsp, interrupt_stack: None, idle: false };
        }
        let old_idx: usize = self.current_task_idx as usize;
        let ghost tasks = self.task_list@;
        let is_terminated = self.task_list[old_idx].state == TaskState::Terminated;
        let p: u64 = self.task_list[old_idx].priority;
        let priority: u64 = if p < 1 { 1 } else { p };
        let ticks: u64 = self.tick_count;
        if ticks % priority == 0 || is_terminated || force_switch {
            let mut next_idx: usize = (old_idx + 1) % n;
            let mut i: usize = 0;
            while i < n && self.task_list[next_idx].state != TaskState::Ready
                invariant
                    n == self.task_list@.len(),
                    tasks == self.task_list@,
                    i <= n,
                    next_idx < n,
                    scan_ready(tasks, next_idx as int, (n - i) as nat)
                        == pick_next(tasks, old_idx as int),
                decreases n - i,
            {
                next_idx = (next_idx + 1) % n;
                i = i + 1;
            }
            let ready = self.task_list[next_idx].state == TaskState::Ready;
            proof {
                assert(0 <= (old_idx + 1) % (n as int) < n);
                lemma_scan_in_range(tasks, (old_idx + 1) % (n as int), n as nat);
                if any_ready(tasks) {
                    lemma_pick_next_is_first_ready(tasks, old_idx as int);
                }
                if ready {
                    assert(tasks[next_idx as int].state == TaskState::Ready);
                }
            }
            if ready && next_idx != old_idx {
                if !self.idle {
                    let mut t: Task = self.task_list[old_idx];
                    t.kernel_rsp = current_rsp;
                    self.task_list.set(old_idx, t);
                }
                self.idle = false;
                self.current_task_idx = next_idx as u64;
                self.current_task_id = self.task_list[next_idx].id.0;
                let next_rsp: u64 = self.task_list[next_idx].kernel_rsp;
                let stack: u64 = self.task_list[next_idx].kernel_stack_top;
                return ScheduleDecision { next_rsp, interrupt_stack: Some(stack), idle: false };
            }
            if !ready && !self.idle {
                let mut t: Task = self.task_list[old_idx];
                t.kernel_rsp = current_rsp;
                self.task_list.set(old_idx, t);
                self.idle = true;
                self.current_task_id = 0;
                return ScheduleDecision { next_rsp: current_rsp, interrupt_stack: None, idle: true };
            }
        }
        ScheduleDecision { next_rsp: current_rsp, interrupt_stack: None, idle: false }
    }

    /// Starts multitasking at boot: the first task of the list becomes the
    /// running one, and its saved stack pointer and stack top are returned
    /// for the jump into it; `None` when the list is empty.
    pub fn start_first_task(&mut self) -> (d: Option<ScheduleDecision>)
        requires
            old(self).wf(),
        ensures
            final(self).wf(),
            final(self)@ == started(old(self)@),
            d == (if old(self)@.task_list.len() > 0 {
                Some(ScheduleDecision {
                    next_rsp: old(self)@.task_list[0].kernel_rsp,
                    interrupt_stack: Some(old(self)@.task_list[0].kernel_stack_top),
                    idle: false,
                })
            } else {
                None::<ScheduleDecision>
            }),
    {
        if self.task_list.len() == 0 {
            return None;
        }
        self.current_task_idx = 0;
        self.current_task_id = self.task_list[0].id.0;
        self.idle = false;
        Some(ScheduleDecision {
            next_rsp: self.task_list[0].kernel_rsp,
            interrupt_stack: Some(self.task_list[0].kernel_stack_top),
            idle: false,
        })
    }

    /// The timer interrupt (after the kernel tasks were polled): counts
    /// the tick, wrapping like an atomic add, then schedules.
    pub fn timer_tick(&mut self, current_rsp: u64) -> (d: ScheduleDecision)
        requires
            old(self).wf(),
        ensures
            final(self).wf(),
            final(self)@ == scheduled(ticked(old(self)@), current_rsp, false),
            d == decision(ticked(old(self)@), current_rsp, false),
    {
        self.tick_count = self.tick_count.wrapping_add(1);
        self.schedule_next(current_rsp, false)
    }

    /// A protection or page fault raised by the running task: the task is
    /// marked Terminated and a switch is forced, so the handler never
    /// returns to the faulting code: it resumes another Ready task, or the
    /// kernel idles when none is left. Returns the id of the killed task.
    pub fn kill_faulting_task(&mut self, current_rsp: u64) -> (r: (u64, ScheduleDecision))
        requires
            old(self).wf(),
            old(self)@.task_list.len() > 0,
        ensures
            final(self).wf(),
            r.0 == old(self)@.task_list[old(self)@.current_task_idx as int].id.0,
            final(self)@ == scheduled(killed(old(self)@), current_rsp, true),
            r.1 == decision(killed(old(self)@), current_rsp, true),
    {
        let idx: usize = self.current_task_idx as usize;
        let mut t: Task = self.task_list[idx];
        let bad_pid: u64 = t.id.0;
        t.state = TaskState::Terminated;
        self.task_list.set(idx, t);
        let d = self.schedule_next(current_rsp, true);
        (bad_pid, d)
    }

    /// A keyboard interrupt delivered `scancode`: it replaces whatever
    /// the init mailbox held.
    pub fn keyboard_input(&mut self, scancode: u8)
        requires
            old(self).wf(),
        ensures
            final(self).wf(),
            final(self)@ == with_input(old(self)@, LABEL_KEYBOARD, scancode),
    {
        self.init_mailbox = Some(Message { from: 0, to: 1, label: LABEL_KEYBOARD, payload: [scancode as u64, 0] });
    }

    /// A serial-port interrupt delivered `byte`: it replaces whatever the
    /// init mailbox held.
    pub fn serial_input(&mut self, byte: u8)
        requires
            old(self).wf(),
        ensures
            final(self).wf(),
            final(self)@ == with_input(old(self)@, LABEL_SERIAL, byte),
    {
        self.init_mailbox = Some(Message { from: 0, to: 1, label: LABEL_SERIAL, payload: [byte as u64, 0] });
    }
}


/// One round-robin step lands on the slot after `idx`.
proof fn lemma_next_slot(cur: int, j: int, n: int)
    requires
        n > 0,
        0 <= cur < n,
        j >= 0,
    ensures
        ((cur + j) % n + 1) % n == (cur + j + 1) % n,
{
    if n > 1 {
        vstd::arithmetic::div_mod::lemma_add_mod_noop(cur + j, 1, n);
        vstd::arithmetic::div_mod::lemma_small_mod(1, n as nat);
        vstd::arithmetic::div_mod::lemma_mod_twice(cur + j, n);
    } else {
        assert(((cur + j) % n + 1) % n == 0);
        assert((cur + j + 1) % n == 0);
    }
}

/// Scanning the offsets `j..=n` after `cur` stops at the first Ready one.
proof fn lemma_scan_finds_first_ready(tasks: Seq<Task>, cur: int, j: int, steps: nat) -> (k: int)
    requires
        tasks.len() > 0,
        0 <= cur < tasks.len(),
        1 <= j,
        j + steps == tasks.len() + 1,
        exists|m: int| j <= m <= tasks.len() && #[trigger] tasks[(cur + m) % (tasks.len() as int)].state == TaskState::Ready,
    ensures
        j <= k <= tasks.len(),
        scan_ready(tasks, (cur + j) % (tasks.len() as int), steps) == (cur + k) % (tasks.len() as int),
        tasks[(cur + k) % (tasks.len() as int)].state == TaskState::Ready,
        forall|m: int| j <= m < k ==> #[trigger] tasks[(cur + m) % (tasks.len() as int)].state != TaskState::Ready,
    decreases steps,
{
    let n = tasks.len() as int;
    let idx = (cur + j) % n;
    let w = choose|m: int| j <= m <= tasks.len() && #[trigger] tasks[(cur + m) % n].state == TaskState::Ready;
    if tasks[idx].state == TaskState::Ready {
        assert(steps > 0);
        assert(scan_ready(tasks, idx, steps) == idx);
        j
    } else {
        assert(w != j);
        assert(steps > 0);
        lemma_next_slot(cur, j, n);
        assert(tasks[(cur + w) % n].state == TaskState::Ready);
        let k = lemma_scan_finds_first_ready(tasks, cur, j + 1, (steps - 1) as nat);
        assert(scan_ready(tasks, idx, steps) == scan_ready(tasks, (cur + j + 1) % n, (steps - 1) as nat));
        assert forall|m: int| j <= m < k implies #[trigger] tasks[(cur + m) % n].state != TaskState::Ready by {
            if m == j {
            } else {
                assert(j + 1 <= m < k);
            }
        }
        k
    }
}

/// Round robin: whenever some task in the list is Ready, the task chosen
/// to follow slot `cur` is Ready, and it is the first Ready task after
/// `cur` in round-robin order (`cur` itself being considered last). A task
/// that has terminated or is blocked is therefore never chosen while
/// another task can run.
pub proof fn lemma_pick_next_is_first_ready(tasks: Seq<Task>, cur: int)
    requires
        0 <= cur < tasks.len(),
        exists|i: int| 0 <= i < tasks.len() && #[trigger] tasks[i].state == TaskState::Ready,
    ensures
        0 <= pick_next(tasks, cur) < tasks.len(),
        tasks[pick_next(tasks, cur)].state == TaskState::Ready,
        exists|k: int| #![trigger tasks[(cur + k) % (tasks.len() as int)]] 1 <= k <= tasks.len() && {
            &&& pick_next(tasks, cur) == (cur + k) % (tasks.len() as int)
            &&& forall|m: int| 1 <= m < k ==> #[trigger] tasks[(cur + m) % (tasks.len() as int)].state != TaskState::Ready
        },
{
    let n = tasks.len() as int;
    let i = choose|i: int| 0 <= i < tasks.len() && #[trigger] tasks[i].state == TaskState::Ready;
    let m: int = if i > cur { i - cur } else { i - cur + n };
    assert((cur + m) % n == i) by {
        if i > cur {
            vstd::arithmetic::div_mod::lemma_small_mod(i as nat, n as nat);
        } else {
            vstd::arithmetic::div_mod::lemma_mod_add_multiples_vanish(i, n);
            vstd::arithmetic::div_mod::lemma_small_mod(i as nat, n as nat);
        }
    }
    assert(tasks[(cur + m) % n].state == TaskState::Ready);
    let k = lemma_scan_finds_first_ready(tasks, cur, 1, n as nat);
    assert(pick_next(tasks, cur) == (cur + k) % n);
}

/// Fault isolation: the handler never returns to the faulting code. The
/// running task is marked Terminated; when another task is Ready the
/// kernel switches to a Ready task other than it (keeping the faulting
/// context in the dead task), and when none is, it enters the idle loop.
pub proof fn lemma_fault_never_resumes_faulting_task(k: KernelView, current_rsp: u64)
    requires
        k.current_task_idx < k.task_list.len() <= u64::MAX,
        !k.idle,
    ensures
        ({
            let idx = k.current_task_idx as int;
            let after = scheduled(killed(k), current_rsp, true);
            let d = decision(killed(k), current_rsp, true);
            &&& after.task_list[idx].state == TaskState::Terminated
            &&& after.task_list[idx].kernel_rsp == current_rsp
            &&& (exists|i: int| 0 <= i < k.task_list.len() && i != idx
                && #[trigger] k.task_list[i].state == TaskState::Ready) ==> {
                &&& switches(killed(k), true)
                &&& !d.idle
                &&& d.interrupt_stack.is_some()
                &&& after.current_task_idx != k.current_task_idx
                &&& after.current_task_idx < after.task_list.len()
                &&& after.task_list[after.current_task_idx as int].state == TaskState::Ready
                &&& d.next_rsp == after.task_list[after.current_task_idx as int].kernel_rsp
            }
            &&& !(exists|i: int| 0 <= i < k.task_list.len() && i != idx
                && #[trigger] k.task_list[i].state == TaskState::Ready) ==> {
                &&& d.idle
                &&& after.idle
                &&& after.current_task_id == 0
            }
        }),
{
    let idx = k.current_task_idx as int;
    let tasks = k.task_list.update(idx, Task { state: TaskState::Terminated, ..k.task_list[idx] });
    let kk = killed(k);
    assert(kk.task_list == tasks);
    if exists|i: int| 0 <= i < k.task_list.len() && i != idx && #[trigger] k.task_list[i].state == TaskState::Ready {
        let i = choose|i: int| 0 <= i < k.task_list.len() && i != idx
            && #[trigger] k.task_list[i].state == TaskState::Ready;
        assert(tasks[i].state == TaskState::Ready);
        lemma_pick_next_is_first_ready(tasks, idx);
        assert(switches(kk, true));
    } else {
        assert forall|i: int| 0 <= i < tasks.len() implies #[trigger] tasks[i].state != TaskState::Ready by {
            if i != idx {
                assert(tasks[i] == k.task_list[i]);
            }
        }
        assert(!any_ready(tasks));
        assert(goes_idle(kk, true));
    }
}

/// The scheduler only ever switches to a Ready task: after a decision the
/// current task is the one before, or a Ready one.
pub proof fn lemma_switches_only_to_ready(k: KernelView, current_rsp: u64, force_switch: bool)
    requires
        k.current_task_idx < k.task_list.len() <= u64::MAX,
    ensures
        ({
            let after = scheduled(k, current_rsp, force_switch);
            ||| after.current_task_idx == k.current_task_idx
            ||| (after.current_task_idx < after.task_list.len()
                && after.task_list[after.current_task_idx as int].state == TaskState::Ready)
        }),
{
    if switches(k, force_switch) {
        lemma_pick_next_is_first_ready(k.task_list, k.current_task_idx as int);
    }
}

/// Scheduling never revives a task: every task of the list keeps its
/// state (only the saved stack pointer of the old task changes), so a
/// terminated task stays terminated.
pub proof fn lemma_scheduling_keeps_task_states(k: KernelView, current_rsp: u64, force_switch: bool)
    requires
        k.task_list.len() == 0 || k.current_task_idx < k.task_list.len(),
    ensures
        scheduled(k, current_rsp, force_switch).task_list.len() == k.task_list.len(),
        forall|i: int| 0 <= i < k.task_list.len() ==> {
            &&& #[trigger] scheduled(k, current_rsp, force_switch).task_list[i].state == k.task_list[i].state
            &&& scheduled(k, current_rsp, force_switch).task_list[i].id == k.task_list[i].id
        },
{
}

/// The current task id names the running task: when it does before a
/// scheduling decision, it names the task the decision resumes afterwards
/// (whether or not a switch happens).
pub proof fn lemma_current_id_follows_resumed_task(k: KernelView, current_rsp: u64, force_switch: bool)
    requires
        k.task_list.len() == 0 || k.current_task_idx < k.task_list.len(),
        k.task_list.len() <= u64::MAX,
        k.current_task_id == running_task_id(k),
    ensures
        scheduled(k, current_rsp, force_switch).current_task_id
            == running_task_id(scheduled(k, current_rsp, force_switch)),
{
    if switches(k, force_switch) {
        let n = k.task_list.len() as int;
        let cur = k.current_task_idx as int;
        assert(0 <= (cur + 1) % n < n);
        lemma_scan_in_range(k.task_list, (cur + 1) % n, n as nat);
    }
}

/// Scanning stays inside the list.
pub(crate) proof fn lemma_scan_in_range(tasks: Seq<Task>, idx: int, steps: nat)
    requires
        0 <= idx < tasks.len(),
    ensures
        0 <= scan_ready(tasks, idx, steps) < tasks.len(),
    decreases steps,
{
    if steps > 0 && tasks[idx].state != TaskState::Ready {
        lemma_scan_in_range(tasks, (idx + 1) % (tasks.len() as int), (steps - 1) as nat);
    }
}

/// A task's saved stack pointer is what it resumes on. Leaving a task
/// (for another task or for the idle loop) saves the interrupted stack
/// pointer in it, unless the kernel was idling; while it is not the running
/// task, scheduling leaves its saved value alone; and switching to it (from
/// another task) resumes exactly that saved value.
pub proof fn lemma_saved_stack_is_resumed(k: KernelView, current_rsp: u64, force_switch: bool, i: int)
    requires
        k.current_task_idx < k.task_list.len() <= u64::MAX,
        0 <= i < k.task_list.len(),
    ensures
        (switches(k, force_switch) || goes_idle(k, force_switch)) && !k.idle && i == k.current_task_idx ==>
            scheduled(k, current_rsp, force_switch).task_list[i].kernel_rsp == current_rsp,
        i != k.current_task_idx ==>
            scheduled(k, current_rsp, force_switch).task_list[i].kernel_rsp == k.task_list[i].kernel_rsp,
        switches(k, force_switch) && i != k.current_task_idx
            && pick_next(k.task_list, k.current_task_idx as int) == i ==> {
            &&& scheduled(k, current_rsp, force_switch).current_task_idx == i
            &&& decision(k, current_rsp, force_switch).next_rsp == k.task_list[i].kernel_rsp
        },
{
}

/// Stack pointer `rsp` lies in task `t`'s kernel stack, the
/// `PROCESS_KERNEL_STACK_SIZE` bytes below its stack top.
pub open spec fn in_kernel_stack(t: Task, rsp: int) -> bool {
    t.kernel_stack_top - PROCESS_KERNEL_STACK_SIZE < rsp <= t.kernel_stack_top
}

/// Every task of the list has a kernel stack of its own, disjoint from the
/// others', and its saved stack pointer lies in it.
pub open spec fn own_stacks(tasks: Seq<Task>) -> bool {
    &&& forall|i: int| 0 <= i < tasks.len() ==> in_kernel_stack(#[trigger] tasks[i], tasks[i].kernel_rsp as int)
    &&& forall|i: int, j: int| 0 <= i < tasks.len() && 0 <= j < tasks.len() && i != j ==> {
        ||| (#[trigger] tasks[i]).kernel_stack_top + PROCESS_KERNEL_STACK_SIZE <= (#[trigger] tasks[j]).kernel_stack_top
        ||| tasks[j].kernel_stack_top + PROCESS_KERNEL_STACK_SIZE <= tasks[i].kernel_stack_top
    }
}

/// A task whose kernel stack is disjoint from those of the list keeps the
/// list's stacks separate when it is appended.
pub proof fn lemma_append_keeps_own_stacks(tasks: Seq<Task>, t: Task)
    requires
        own_stacks(tasks),
        in_kernel_stack(t, t.kernel_rsp as int),
        forall|i: int| 0 <= i < tasks.len() ==> {
            ||| (#[trigger] tasks[i]).kernel_stack_top + PROCESS_KERNEL_STACK_SIZE <= t.kernel_stack_top
            ||| t.kernel_stack_top + PROCESS_KERNEL_STACK_SIZE <= tasks[i].kernel_stack_top
        },
    ensures
        own_stacks(tasks.push(t)),
{
    let n = tasks.push(t);
    assert forall|i: int| 0 <= i < n.len() implies in_kernel_stack(#[trigger] n[i], n[i].kernel_rsp as int) by {
        if i < tasks.len() {
            assert(n[i] == tasks[i]);
        }
    }
    assert forall|i: int, j: int| 0 <= i < n.len() && 0 <= j < n.len() && i != j implies {
        ||| (#[trigger] n[i]).kernel_stack_top + PROCESS_KERNEL_STACK_SIZE <= (#[trigger] n[j]).kernel_stack_top
        ||| n[j].kernel_stack_top + PROCESS_KERNEL_STACK_SIZE <= n[i].kernel_stack_top
    } by {
        if i < tasks.len() {
            assert(n[i] == tasks[i]);
        }
        if j < tasks.len() {
            assert(n[j] == tasks[j]);
        }
    }
}

/// Scheduling keeps every task on its own stack, as long as the interrupted
/// stack pointer lies in the running task's stack (where the processor
/// takes interrupts, and where the idle loop runs).
pub proof fn lemma_scheduling_keeps_own_stacks(k: KernelView, current_rsp: u64, force_switch: bool)
    requires
        k.current_task_idx < k.task_list.len(),
        own_stacks(k.task_list),
        in_kernel_stack(k.task_list[k.current_task_idx as int], current_rsp as int),
    ensures
        own_stacks(scheduled(k, current_rsp, force_switch).task_list),
        own_stacks(killed(k).task_list),
{
    let cur = k.current_task_idx as int;
    let s = saved_list(k, current_rsp);
    assert forall|i: int| 0 <= i < s.len() implies in_kernel_stack(#[trigger] s[i], s[i].kernel_rsp as int) by {
        if i != cur {
            assert(s[i] == k.task_list[i]);
        }
    }
    assert forall|i: int, j: int| 0 <= i < s.len() && 0 <= j < s.len() && i != j implies {
        ||| (#[trigger] s[i]).kernel_stack_top + PROCESS_KERNEL_STACK_SIZE <= (#[trigger] s[j]).kernel_stack_top
        ||| s[j].kernel_stack_top + PROCESS_KERNEL_STACK_SIZE <= s[i].kernel_stack_top
    } by {
        assert(s[i].kernel_stack_top == k.task_list[i].kernel_stack_top);
        assert(s[j].kernel_stack_top == k.task_list[j].kernel_stack_top);
    }
    let kl = killed(k).task_list;
    assert forall|i: int| 0 <= i < kl.len() implies in_kernel_stack(#[trigger] kl[i], kl[i].kernel_rsp as int) by {
        if i != cur {
            assert(kl[i] == k.task_list[i]);
        }
    }
    assert forall|i: int, j: int| 0 <= i < kl.len() && 0 <= j < kl.len() && i != j implies {
        ||| (#[trigger] kl[i]).kernel_stack_top + PROCESS_KERNEL_STACK_SIZE <= (#[trigger] kl[j]).kernel_stack_top
        ||| kl[j].kernel_stack_top + PROCESS_KERNEL_STACK_SIZE <= kl[i].kernel_stack_top
    } by {
        assert(kl[i].kernel_stack_top == k.task_list[i].kernel_stack_top);
        assert(kl[j].kernel_stack_top == k.task_list[j].kernel_stack_top);
    }
}

/// The fault handler never resumes the faulting context: when every task
/// of the list has its own kernel stack, the stack pointer a fault resumes
/// (unless the kernel idles) lies outside the faulting task's stack.
pub proof fn lemma_fault_resumes_outside_faulting_stack(k: KernelView, current_rsp: u64)
    requires
        k.current_task_idx < k.task_list.len() <= u64::MAX,
        !k.idle,
        own_stacks(k.task_list),
    ensures
        !decision(killed(k), current_rsp, true).idle ==> !in_kernel_stack(
            k.task_list[k.current_task_idx as int],
            decision(killed(k), current_rsp, true).next_rsp as int,
        ),
{
    let kk = killed(k);
    let cur = k.current_task_idx as int;
    if any_ready(kk.task_list) {
        lemma_pick_next_is_first_ready(kk.task_list, cur);
        let next = pick_next(kk.task_list, cur);
        assert(kk.task_list[cur].state == TaskState::Terminated);
        assert(next != cur);
        assert(switches(kk, true));
        assert(kk.task_list[next] == k.task_list[next]);
        assert(in_kernel_stack(k.task_list[next], k.task_list[next].kernel_rsp as int));
        assert(k.task_list[next].kernel_stack_top + PROCESS_KERNEL_STACK_SIZE <= k.task_list[cur].kernel_stack_top
            || k.task_list[cur].kernel_stack_top + PROCESS_KERNEL_STACK_SIZE <= k.task_list[next].kernel_stack_top);
    } else {
        assert(goes_idle(kk, true));
    }
}

/// Time slices: a task that has not terminated keeps the CPU, unforced,
/// as long as its priority (0 counting as 1) does not divide the tick
/// count. Such a decision changes nothing and resumes the interrupted
/// stack.
pub proof fn lemma_slice_lasts_until_priority_divides_ticks(k: KernelView, current_rsp: u64)
    requires
        k.current_task_idx < k.task_list.len(),
        k.task_list[k.current_task_idx as int].state != TaskState::Terminated,
        k.tick_count % (if k.task_list[k.current_task_idx as int].priority == 0 { 1u64 } else {
            k.task_list[k.current_task_idx as int].priority
        }) != 0,
    ensures
        scheduled(k, current_rsp, false) == k,
        decision(k, current_rsp, false) == (ScheduleDecision { next_rsp: current_rsp, interrupt_stack: None, idle: false }),
{
}

/// Round robin on ticks: when the running task's priority (0 counting as
/// 1) divides the tick count and another task is Ready, an unforced
/// decision switches to a Ready task other than the running one and
/// resumes it on its saved stack.
pub proof fn lemma_slice_end_switches_to_other_ready_task(k: KernelView, current_rsp: u64, other: int)
    requires
        k.current_task_idx < k.task_list.len() <= u64::MAX,
        k.tick_count % (if k.task_list[k.current_task_idx as int].priority == 0 { 1u64 } else {
            k.task_list[k.current_task_idx as int].priority
        }) == 0,
        0 <= other < k.task_list.len(),
        other != k.current_task_idx,
        k.task_list[other].state == TaskState::Ready,
    ensures
        ({
            let after = scheduled(k, current_rsp, false);
            let d = decision(k, current_rsp, false);
            &&& after.current_task_idx != k.current_task_idx
            &&& after.current_task_idx < k.task_list.len()
            &&& k.task_list[after.current_task_idx as int].state == TaskState::Ready
            &&& d.next_rsp == k.task_list[after.current_task_idx as int].kernel_rsp
            &&& d.interrupt_stack == Some(k.task_list[after.current_task_idx as int].kernel_stack_top)
            &&& !d.idle
        }),
{
    let tasks = k.task_list;
    let n = tasks.len() as int;
    let cur = k.current_task_idx as int;
    lemma_pick_next_is_first_ready(tasks, cur);
    let kk = choose|kk: int| #![trigger tasks[(cur + kk) % n]] 1 <= kk <= tasks.len() && {
        &&& pick_next(tasks, cur) == (cur + kk) % n
        &&& forall|m: int| 1 <= m < kk ==> #[trigger] tasks[(cur + m) % n].state != TaskState::Ready
    };
    let m: int = if other > cur { other - cur } else { other - cur + n };
    assert((cur + m) % n == other) by {
        if other > cur {
            vstd::arithmetic::div_mod::lemma_small_mod(other as nat, n as nat);
        } else {
            vstd::arithmetic::div_mod::lemma_mod_add_multiples_vanish(other, n);
            vstd::arithmetic::div_mod::lemma_small_mod(other as nat, n as nat);
        }
    }
    assert(1 <= m < n);
    assert(tasks[(cur + m) % n].state == TaskState::Ready);
    assert(kk <= m);
    assert(pick_next(tasks, cur) != cur) by {
        if cur + kk < n {
            vstd::arithmetic::div_mod::lemma_small_mod((cur + kk) as nat, n as nat);
        } else {
            vstd::arithmetic::div_mod::lemma_mod_sub_multiples_vanish(cur + kk, n);
            vstd::arithmetic::div_mod::lemma_small_mod((cur + kk - n) as nat, n as nat);
        }
    }
    assert(any_ready(tasks));
    assert(switches(k, false));
}

} // verus!
