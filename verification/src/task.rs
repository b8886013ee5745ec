use vstd::prelude::*;

verus! {

/// An IPC message as the kernel routes it: sender, receiver, a type label
/// and a sixteen byte payload.
#[derive(Clone, Copy, Debug)]
pub struct Message {
    pub from: u64,
    pub to: u64,
    pub label: u64,
    pub payload: [u64; 2],
}

impl Message {
    /// Builds a message from its parts.
    pub fn new(from: u64, to: u64, label: u64, p0: u64, p1: u64) -> (m: Message)
        ensures
            m.from == from,
            m.to == to,
            m.label == label,
            m.payload@ == seq![p0, p1],
    {
        Message { from, to, label, payload: [p0, p1] }
    }
}

/// The life cycle of a task.
#[derive(Clone, Copy, Debug, PartialEq, Eq, Structural)]
pub enum TaskState {
    /// May be given CPU time.
    Ready,
    /// Waits for an IPC message.
    Blocked,
    /// Has exited or was killed; waits to be reclaimed.
    Terminated,
}

/// A task identifier. Id 0 stands for the kernel's initial context.
#[derive(Clone, Copy, Debug, PartialEq, Eq, Structural, PartialOrd, Ord)]
pub struct TaskId(pub u64);

/// The counter value after one more id was handed out: one up, wrapping
/// to 0 after `u64::MAX` as an atomic fetch-and-add does.
pub open spec fn next_id(c: u64) -> u64 {
    if c == u64::MAX { 0 } else { (c + 1) as u64 }
}

/// The id that the `n`-th call (counting from 0) hands out when the counter
/// starts at `c`.
pub open spec fn id_of_call(c: u64, n: nat) -> u64
    decreases n,
{
    if n == 0 { c } else { next_id(id_of_call(c, (n - 1) as nat)) }
}

impl TaskId {
    /// Hands out the next id from `counter` and advances it.
    pub fn new(counter: &mut u64) -> (id: TaskId)
        ensures
            id.0 == *old(counter),
            *final(counter) == next_id(*old(counter)),
    {
        let id = TaskId(*counter);
        *counter = counter.wrapping_add(1);
        id
    }
}

/// The `n`-th id is the start value plus `n`, modulo 2^64.
proof fn lemma_id_of_call_value(c: u64, n: nat)
    ensures
        id_of_call(c, n) == (c + n) % 0x1_0000_0000_0000_0000,
    decreases n,
{
    if n > 0 {
        lemma_id_of_call_value(c, (n - 1) as nat);
        let m: int = 0x1_0000_0000_0000_0000;
        let x: int = c + n - 1;
        vstd::arithmetic::div_mod::lemma_fundamental_div_mod(x, m);
        vstd::arithmetic::div_mod::lemma_fundamental_div_mod(x + 1, m);
        vstd::arithmetic::div_mod::lemma_mod_bound(x, m);
        if x % m == m - 1 {
            vstd::arithmetic::div_mod::lemma_mod_add_multiples_vanish(0, m);
            assert((x + 1) % m == 0) by {
                vstd::arithmetic::div_mod::lemma_add_mod_noop(x, 1, m);
                vstd::arithmetic::div_mod::lemma_mod_self_0(m);
            }
        } else {
            assert((x + 1) % m == x % m + 1) by {
                vstd::arithmetic::div_mod::lemma_add_mod_noop(x, 1, m);
                vstd::arithmetic::div_mod::lemma_small_mod((x % m + 1) as nat, m as nat);
            }
        }
    }
}

/// Ids count from 1 (0 names the kernel's own context): with the counter
/// starting at 1, as `Kernel::new` sets it, the `n`-th call hands out
/// `n + 1`, so every id is at least 1 and each call's id is one more than
/// the previous call's, until the counter would wrap.
pub proof fn lemma_ids_count_from_one(n: nat)
    requires
        n < u64::MAX,
    ensures
        id_of_call(1, n) == n + 1,
        id_of_call(1, n) >= 1,
{
    lemma_id_of_call_value(1, n);
    vstd::arithmetic::div_mod::lemma_small_mod((1 + n) as nat, 0x1_0000_0000_0000_0000nat);
}

/// Task ids from two different calls differ: for any start value of the
/// counter, the ids that calls `a` and `b` hand out are different as long
/// as fewer than 2^64 calls lie between them.
pub proof fn lemma_call_ids_differ(c: u64, a: nat, b: nat)
    requires
        a < b,
        b - a < 0x1_0000_0000_0000_0000,
    ensures
        id_of_call(c, a) != id_of_call(c, b),
{
    let m: int = 0x1_0000_0000_0000_0000;
    lemma_id_of_call_value(c, a);
    lemma_id_of_call_value(c, b);
    if (c + a) % m == (c + b) % m {
        vstd::arithmetic::div_mod::lemma_fundamental_div_mod(c + a, m);
        vstd::arithmetic::div_mod::lemma_fundamental_div_mod(c + b, m);
        let q1 = (c + a) / m;
        let q2 = (c + b) / m;
        assert((b - a) == (q2 - q1) * m) by (nonlinear_arith)
            requires
                c + a == m * q1 + (c + a) % m,
                c + b == m * q2 + (c + b) % m,
                (c + a) % m == (c + b) % m;
        assert(false) by (nonlinear_arith)
            requires
                0 < b - a < m,
                b - a == (q2 - q1) * m,
                m > 0;
    }
}


/// Default scheduling priority: the number of timer ticks a task runs
/// before it can be preempted.
pub const DEFAULT_PRIORITY: u64 = 5;

/// Number of 64-bit words in the initial kernel-stack frame of a user
/// process: fifteen general registers and the five-word `iretq` frame.
pub const INITIAL_FRAME_WORDS: usize = 20;

/// Size of a user process's kernel stack, in bytes.
pub const PROCESS_KERNEL_STACK_SIZE: u64 = 32768;

/// RFLAGS of a fresh user process: interrupts enabled (IF) plus the
/// always-one bit 1.
pub const USER_RFLAGS: u64 = 0x202;

/// The control block of a task: everything the scheduler, the system calls
/// and the executor decide on. The future of a kernel task and the memory of
/// its stack live with the caller, keyed by `id`.
#[derive(Clone, Copy, Debug)]
pub struct Task {
    pub id: TaskId,
    pub state: TaskState,
    /// Ticks per time slice; a smaller value runs more often.
    pub priority: u64,
    /// Kernel stack pointer saved when the task was preempted.
    pub kernel_rsp: u64,
    /// Top of the task's kernel stack (loaded into TSS.RSP0 on a switch).
    pub kernel_stack_top: u64,
    /// The task's IPC mailbox.
    pub mailbox: Option<Message>,
    /// The registered waker, given by the id of the task it re-queues.
    pub waker: Option<u64>,
}

/// The initial kernel-stack frame of a user process, lowest address first:
/// fifteen zeroed general registers (r15 first, rax last, in the order the
/// interrupt wrapper pops them) and then the `iretq` frame RIP, CS, RFLAGS,
/// RSP, SS, with both selectors at privilege level 3.
pub open spec fn user_frame(entry: u64, user_stack_top: u64, user_code: u16, user_data: u16) -> Seq<u64> {
    Seq::new(15, |i: int| 0u64) + seq![
        entry,
        (user_code | 3u16) as u64,
        USER_RFLAGS,
        user_stack_top,
        (user_data | 3u16) as u64,
    ]
}

/// The task and the result after one poll of a receive: the mailbox's
/// message, if any, is taken and the task is Ready; an empty mailbox
/// leaves the task Blocked with the waker of `waker_task` registered.
pub open spec fn received(t: Task, waker_task: u64) -> (Task, Option<Message>) {
    match t.mailbox {
        Some(m) => (Task { mailbox: None, state: TaskState::Ready, ..t }, Some(m)),
        None => (Task { waker: Some(waker_task), state: TaskState::Blocked, ..t }, None),
    }
}

impl Task {
    /// A kernel task: Ready, default priority, an empty mailbox, no waker,
    /// and a saved stack pointer at the top of its (empty) kernel stack.
    pub fn new(id: TaskId, kernel_stack_top: u64) -> (t: Task)
        ensures
            t.id == id,
            t.state == TaskState::Ready,
            t.priority == DEFAULT_PRIORITY,
            t.kernel_rsp == kernel_stack_top,
            t.kernel_stack_top == kernel_stack_top,
            t.mailbox.is_none(),
            t.waker.is_none(),
    {
        Task {
            id,
            state: TaskState::Ready,
            priority: DEFAULT_PRIORITY,
            kernel_rsp: kernel_stack_top,
            kernel_stack_top,
            mailbox: None,
            waker: None,
        }
    }

    /// A user process that will enter Ring 3 at `entry` on the stack
    /// `user_stack_top`. Returns the task and the words of its initial
    /// kernel-stack frame, which the caller writes from `kernel_rsp` upward;
    /// popping the registers and executing `iretq` on that frame starts the
    /// process.
    pub fn create_user_process(
        id: TaskId,
        entry: u64,
        user_stack_top: u64,
        kernel_stack_top: u64,
        user_code_selector: u16,
        user_data_selector: u16,
    ) -> (r: (Task, Vec<u64>))
        requires
            kernel_stack_top >= 8 * INITIAL_FRAME_WORDS,
        ensures
            r.0.id == id,
            r.0.state == TaskState::Ready,
            r.0.priority == DEFAULT_PRIORITY,
            r.0.kernel_stack_top == kernel_stack_top,
            r.0.kernel_rsp == kernel_stack_top - 8 * INITIAL_FRAME_WORDS,
            r.0.mailbox.is_none(),
            r.0.waker.is_none(),
            r.1@ == user_frame(entry, user_stack_top, user_code_selector, user_data_selector),
    {
        let mut frame: Vec<u64> = Vec::new();
        let mut i: usize = 0;
        while i < 15
            invariant
                i <= 15,
                frame@ == Seq::new(i as nat, |j: int| 0u64),
            decreases 15 - i,
        {
            frame.push(0);
            i = i + 1;
        }
        frame.push(entry);
        frame.push((user_code_selector | 3) as u64);
        frame.push(USER_RFLAGS);
        frame.push(user_stack_top);
        frame.push((user_data_selector | 3) as u64);
        assert(frame@ =~= user_frame(entry, user_stack_top, user_code_selector, user_data_selector));
        let t = Task {
            id,
            state: TaskState::Ready,
            priority: DEFAULT_PRIORITY,
            kernel_rsp: kernel_stack_top - 8 * (INITIAL_FRAME_WORDS as u64),
            kernel_stack_top,
            mailbox: None,
            waker: None,
        };
        (t, frame)
    }

    /// Whether the task may be scheduled.
    pub fn is_runnable(&self) -> (r: bool)
        ensures
            r == (self.state == TaskState::Ready),
    {
        self.state == TaskState::Ready
    }

    /// One poll of a future that waits for the task's next IPC message:
    /// a waiting message is taken out of the mailbox and the task becomes
    /// Ready; otherwise the waker (re-queueing task `waker_task`) is
    /// registered and the task is Blocked.
    pub fn receive(&mut self, waker_task: u64) -> (r: Option<Message>)
        ensures
            (*final(self), r) == received(*old(self), waker_task),
    {
        match self.mailbox.take() {
            Some(msg) => {
                self.state = TaskState::Ready;
                Some(msg)
            },
            None => {
                self.waker = Some(waker_task);
                self.state = TaskState::Blocked;
                None
            },
        }
    }
}

} // verus!
