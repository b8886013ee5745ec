use kernel::interrupts::unmask_device_lines;
use kernel::kernel::Kernel;
use kernel::task::{Message, Task, TaskId, TaskState};
use kernel::syscall::{
    needs_message, SyscallEffect, NOT_FOUND, SYS_EXIT, SYS_GET_SERVICE_PID, SYS_PRINT, SYS_RECV,
    SYS_REG_SERVICE, SYS_SEND, SYS_SET_PRIORITY, SYS_YIELD,
};

fn user_task(id: u64, rsp: u64) -> Task {
    let mut t = Task::new(TaskId(id), rsp + 0x1000);
    t.kernel_rsp = rsp;
    t
}

fn kernel_with_list(n: u64) -> Kernel {
    let mut k = Kernel::new();
    for i in 0..n {
        k.add_to_task_list(user_task(i + 1, 0x1000 * (i + 1)));
    }
    k
}

#[test]
fn new_kernel_is_empty() {
    let k = Kernel::new();
    assert!(k.registry.is_empty());
    assert!(k.services.is_empty());
    assert!(k.init_mailbox.is_none());
    assert_eq!(k.current_task_id, 0);
    assert_eq!(k.next_task_id, 1);
    assert!(k.task_list.is_empty());
    assert!(k.executor.is_idle());
}

#[test]
fn new_task_id_counts_from_one() {
    let mut k = Kernel::new();
    assert_eq!(k.new_task_id(), TaskId(1));
    assert_eq!(k.new_task_id(), TaskId(2));
    assert_eq!(k.next_task_id, 3);
}

#[test]
fn schedule_with_empty_list_resumes_interrupted_stack() {
    let mut k = Kernel::new();
    let d = k.schedule_next(0x5555, true);
    assert_eq!(d.next_rsp, 0x5555);
    assert!(d.interrupt_stack.is_none());
}

#[test]
fn timer_switches_only_when_the_slice_is_over() {
    let mut k = kernel_with_list(2);
    // Tick 1: 1 % 5 != 0, keep running task 0.
    let d = k.timer_tick(0xaaaa);
    assert_eq!(k.tick_count, 1);
    assert_eq!(d.next_rsp, 0xaaaa);
    assert!(d.interrupt_stack.is_none());
    assert_eq!(k.current_task_idx, 0);
    for _ in 0..3 {
        k.timer_tick(0xaaaa);
    }
    // Tick 5: the slice of priority 5 is over, switch to task 1.
    let d = k.timer_tick(0xbbbb);
    assert_eq!(k.tick_count, 5);
    assert_eq!(k.current_task_idx, 1);
    assert_eq!(k.current_task_id, 2);
    assert_eq!(d.next_rsp, 0x2000);
    assert_eq!(d.interrupt_stack, Some(0x3000));
    assert_eq!(k.task_list[0].kernel_rsp, 0xbbbb);
}

#[test]
fn forced_switch_goes_round_robin() {
    let mut k = kernel_with_list(3);
    let d = k.schedule_next(0x100, true);
    assert_eq!(k.current_task_idx, 1);
    assert_eq!(d.next_rsp, 0x2000);
    let d = k.schedule_next(0x200, true);
    assert_eq!(k.current_task_idx, 2);
    assert_eq!(d.next_rsp, 0x3000);
    let d = k.schedule_next(0x300, true);
    assert_eq!(k.current_task_idx, 0);
    assert_eq!(d.next_rsp, 0x100);
}

#[test]
fn round_robin_skips_tasks_that_are_not_ready() {
    let mut k = kernel_with_list(4);
    k.task_list[1].state = TaskState::Blocked;
    k.task_list[2].state = TaskState::Terminated;
    let d = k.schedule_next(0x77, true);
    assert_eq!(k.current_task_idx, 3);
    assert_eq!(k.current_task_id, 4);
    assert_eq!(d.next_rsp, 0x4000);
    assert_eq!(d.interrupt_stack, Some(0x5000));
}

#[test]
fn single_ready_task_keeps_running_when_no_other_can() {
    let mut k = kernel_with_list(2);
    k.task_list[1].state = TaskState::Blocked;
    let d = k.schedule_next(0x77, true);
    assert_eq!(k.current_task_idx, 0);
    assert_eq!(d.next_rsp, 0x77);
    assert!(d.interrupt_stack.is_none());
}

#[test]
fn priority_zero_counts_as_one() {
    let mut k = kernel_with_list(2);
    k.task_list[0].priority = 0;
    let d = k.timer_tick(0x9);
    assert_eq!(k.current_task_idx, 1);
    assert_eq!(d.next_rsp, 0x2000);
}

#[test]
fn fault_kills_the_running_task_and_switches() {
    let mut k = kernel_with_list(2);
    let (killed, d) = k.kill_faulting_task(0x1234);
    assert_eq!(killed, 1);
    assert_eq!(k.task_list[0].state, TaskState::Terminated);
    assert_eq!(k.task_list[0].kernel_rsp, 0x1234);
    assert_eq!(k.current_task_idx, 1);
    assert_eq!(k.current_task_id, 2);
    assert_eq!(d.next_rsp, 0x2000);
    assert_eq!(d.interrupt_stack, Some(0x3000));
    // The killed task is never chosen again while the other one is ready.
    for _ in 0..10 {
        k.schedule_next(0x4444, true);
        assert_eq!(k.current_task_idx, 1);
    }
}

#[test]
fn fault_of_the_last_task_enters_the_idle_loop() {
    let mut k = kernel_with_list(1);
    let (killed, d) = k.kill_faulting_task(0x42);
    assert_eq!(killed, 1);
    assert_eq!(k.task_list[0].state, TaskState::Terminated);
    assert_eq!(k.task_list[0].kernel_rsp, 0x42);
    assert!(d.idle);
    assert!(d.interrupt_stack.is_none());
    assert!(k.idle);
    assert_eq!(k.current_task_id, 0);
    // Ticks while idling resume the idle loop.
    let d = k.timer_tick(0x99);
    assert!(!d.idle);
    assert_eq!(d.next_rsp, 0x99);
    assert!(d.interrupt_stack.is_none());
    // A new task is switched to; the idle loop's stack is not saved.
    k.add_to_task_list(user_task(2, 0x5000));
    let d = k.timer_tick(0x99);
    assert!(!d.idle);
    assert!(!k.idle);
    assert_eq!(k.current_task_idx, 1);
    assert_eq!(k.current_task_id, 2);
    assert_eq!(d.next_rsp, 0x5000);
    assert_eq!(k.task_list[0].kernel_rsp, 0x42);
}

#[test]
fn the_scheduler_never_switches_to_a_dead_task() {
    let mut k = kernel_with_list(3);
    k.task_list[1].state = TaskState::Terminated;
    k.task_list[2].state = TaskState::Terminated;
    let d = k.schedule_next(0x10, true);
    assert_eq!(k.current_task_idx, 0);
    assert_eq!(d.next_rsp, 0x10);
    assert!(!d.idle);
    k.task_list[0].state = TaskState::Terminated;
    let d = k.schedule_next(0x20, false);
    assert!(d.idle);
    assert_eq!(k.current_task_idx, 0);
}

#[test]
fn device_input_replaces_the_init_mailbox() {
    let mut k = Kernel::new();
    k.keyboard_input(0x1e);
    let m = k.init_mailbox.unwrap();
    assert_eq!((m.from, m.to, m.label, m.payload), (0, 1, 2, [0x1e, 0]));
    k.serial_input(b'x');
    let m = k.init_mailbox.unwrap();
    assert_eq!((m.from, m.to, m.label, m.payload), (0, 1, 3, [b'x' as u64, 0]));
}

#[test]
fn sys_print_prints_the_low_byte() {
    let mut k = Kernel::new();
    let r = k.handle_syscall(SYS_PRINT, 0x141, 0, None);
    assert_eq!(r.ret, 0);
    assert!(matches!(r.effect, SyscallEffect::Print(0x41)));
}

#[test]
fn sys_exit_terminates_a_registered_task() {
    let mut k = Kernel::new();
    k.register_task(Task::new(TaskId(3), 0x1000));
    k.current_task_id = 3;
    let r = k.handle_syscall(SYS_EXIT, 0, 0, None);
    assert_eq!(r.ret, 0);
    assert!(matches!(r.effect, SyscallEffect::Exited(3)));
    assert_eq!(k.registry[&3].state, TaskState::Terminated);
}

#[test]
fn sys_exit_terminates_the_calling_user_process() {
    let mut k = kernel_with_list(2);
    k.current_task_id = 1;
    let r = k.handle_syscall(SYS_EXIT, 0, 0, None);
    assert_eq!(r.ret, 0);
    assert!(matches!(r.effect, SyscallEffect::Exited(1)));
    assert_eq!(k.task_list[0].state, TaskState::Terminated);
    assert_eq!(k.task_list[1].state, TaskState::Ready);
    assert!(k.registry.is_empty());
    // The next tick skips the exited process.
    let d = k.timer_tick(0x77);
    assert_eq!(k.current_task_idx, 1);
    assert_eq!(d.next_rsp, 0x2000);
}

#[test]
fn sys_exit_of_an_unregistered_task_does_nothing() {
    let mut k = Kernel::new();
    k.current_task_id = 9;
    let r = k.handle_syscall(SYS_EXIT, 0, 0, None);
    assert_eq!(r.ret, 0);
    assert!(matches!(r.effect, SyscallEffect::Nothing));
    assert!(k.registry.is_empty());
}

#[test]
fn sys_send_refuses_a_low_buffer() {
    let mut k = Kernel::new();
    k.register_task(Task::new(TaskId(3), 0x1000));
    assert!(!needs_message(SYS_SEND, 0x1fff_ffff));
    let r = k.handle_syscall(SYS_SEND, 3, 0x1fff_ffff, None);
    assert_eq!(r.ret, 2);
    assert!(k.registry[&3].mailbox.is_none());
}

#[test]
fn sys_send_to_an_unknown_task_returns_1() {
    let mut k = Kernel::new();
    assert!(needs_message(SYS_SEND, 0x2000_0000));
    let r = k.handle_syscall(SYS_SEND, 5, 0x2000_0000, Some(Message::new(1, 5, 1, 0, 0)));
    assert_eq!(r.ret, 1);
}

#[test]
fn sys_send_then_receive_delivers_the_message() {
    let mut k = Kernel::new();
    k.register_task(Task::new(TaskId(3), 0x1000));
    let msg = Message::new(1, 3, 1, 42, 43);
    let r = k.handle_syscall(SYS_SEND, 3, 0x2000_1000, Some(msg));
    assert_eq!(r.ret, 0);
    let mut t = k.registry[&3];
    let got = t.receive(3).unwrap();
    assert_eq!(got.payload, [42, 43]);
    assert_eq!(got.label, 1);
}

#[test]
fn sys_send_wakes_a_blocked_receiver() {
    let mut k = Kernel::new();
    let mut t = Task::new(TaskId(3), 0x1000);
    assert!(t.receive(8).is_none());
    k.register_task(t);
    let r = k.handle_syscall(SYS_SEND, 3, 0x3000_0000, Some(Message::new(1, 3, 2, 5, 6)));
    assert_eq!(r.ret, 0);
    let t = k.registry[&3];
    assert_eq!(t.state, TaskState::Ready);
    assert!(t.waker.is_none());
    assert_eq!(t.mailbox.unwrap().payload, [5, 6]);
    // The waker re-queued task 8 on the executor's run queue.
    assert!(!k.executor.is_idle());
}

#[test]
fn sys_recv_drains_the_init_mailbox() {
    let mut k = Kernel::new();
    k.serial_input(b'q');
    let r = k.handle_syscall(SYS_RECV, 0x2000_0000, 0, None);
    assert_eq!(r.ret, 1);
    match r.effect {
        SyscallEffect::Deliver(m) => {
            assert_eq!(m.label, 3);
            assert_eq!(m.payload, [b'q' as u64, 0]);
        },
        _ => panic!("expected a delivered message"),
    }
    let r = k.handle_syscall(SYS_RECV, 0x2000_0000, 0, None);
    assert_eq!(r.ret, 0);
    assert!(matches!(r.effect, SyscallEffect::Nothing));
}

#[test]
fn sys_yield_halts() {
    let mut k = Kernel::new();
    let r = k.handle_syscall(SYS_YIELD, 0, 0, None);
    assert_eq!(r.ret, 0);
    assert!(matches!(r.effect, SyscallEffect::Halt));
}

#[test]
fn sys_set_priority() {
    let mut k = Kernel::new();
    k.current_task_id = 4;
    assert_eq!(k.handle_syscall(SYS_SET_PRIORITY, 2, 0, None).ret, 1);
    k.register_task(Task::new(TaskId(4), 0x1000));
    assert_eq!(k.handle_syscall(SYS_SET_PRIORITY, 2, 0, None).ret, 0);
    assert_eq!(k.registry[&4].priority, 2);
}

#[test]
fn service_lookup_after_register() {
    let mut k = Kernel::new();
    let name: u64 = 0x2020_4C41_4952_4553;
    assert_eq!(k.handle_syscall(SYS_GET_SERVICE_PID, name, 0, None).ret, NOT_FOUND);
    k.current_task_id = 1;
    assert_eq!(k.handle_syscall(SYS_REG_SERVICE, name, 0, None).ret, 0);
    k.current_task_id = 2;
    assert_eq!(k.handle_syscall(SYS_GET_SERVICE_PID, name, 0, None).ret, 1);
    assert_eq!(k.handle_syscall(SYS_GET_SERVICE_PID, name + 1, 0, None).ret, NOT_FOUND);
    // Registering again moves the name to the new caller.
    assert_eq!(k.handle_syscall(SYS_REG_SERVICE, name, 0, None).ret, 0);
    assert_eq!(k.handle_syscall(SYS_GET_SERVICE_PID, name, 0, None).ret, 2);
}

#[test]
fn unknown_syscall_returns_max() {
    let mut k = Kernel::new();
    let r = k.handle_syscall(99, 1, 2, None);
    assert_eq!(r.ret, u64::MAX);
    assert!(matches!(r.effect, SyscallEffect::Nothing));
}

#[test]
fn executor_polls_spawned_tasks_in_order() {
    let mut k = Kernel::new();
    k.spawn(Task::new(TaskId(10), 0x1000));
    k.spawn(Task::new(TaskId(11), 0x2000));
    assert!(k.registry.contains_key(&10));
    assert_eq!(k.next_ready_task(), Some(10));
    assert_eq!(k.current_task_id, 10);
    assert!(k.executor.waker_cache.contains(&10));
    assert_eq!(k.next_ready_task(), Some(11));
    assert_eq!(k.next_ready_task(), None);
    assert_eq!(k.current_task_id, 0);
}

#[test]
fn draining_the_executor_restores_the_interrupted_task_id() {
    let mut k = Kernel::new();
    k.add_to_task_list(Task::new(TaskId(7), 0x7000));
    k.spawn(Task::new(TaskId(10), 0x1000));
    assert_eq!(k.next_ready_task(), Some(10));
    assert_eq!(k.current_task_id, 10);
    assert_eq!(k.next_ready_task(), None);
    assert_eq!(k.current_task_id, 7);
}

#[test]
fn executor_skips_tasks_that_are_not_ready() {
    let mut k = Kernel::new();
    let mut t = Task::new(TaskId(10), 0x1000);
    t.state = TaskState::Blocked;
    k.spawn(t);
    k.spawn(Task::new(TaskId(11), 0x2000));
    assert_eq!(k.next_ready_task(), Some(11));
    assert!(k.executor.is_idle());
}

#[test]
fn finished_task_is_never_polled_again() {
    let mut k = Kernel::new();
    k.spawn(Task::new(TaskId(10), 0x1000));
    assert_eq!(k.next_ready_task(), Some(10));
    k.wake_task(10);
    k.finish_task(10);
    assert!(!k.registry.contains_key(&10));
    assert!(!k.executor.tasks.contains(&10));
    assert!(!k.executor.waker_cache.contains(&10));
    assert_eq!(k.next_ready_task(), None);
}

#[test]
fn wake_requeues_until_the_queue_is_full() {
    let mut k = Kernel::new();
    k.spawn(Task::new(TaskId(10), 0x1000));
    for _ in 0..120 {
        k.wake_task(10);
    }
    let mut polled = 0;
    while let Some(id) = k.next_ready_task() {
        assert_eq!(id, 10);
        polled += 1;
    }
    assert_eq!(polled, 100);
}

#[test]
fn a_registration_survives_other_calls_and_ticks() {
    let mut k = kernel_with_list(2);
    let name: u64 = 0x2020_4C41_4952_4553;
    k.current_task_id = 1;
    assert_eq!(k.handle_syscall(SYS_REG_SERVICE, name, 0, None).ret, 0);
    assert_eq!(k.handle_syscall(SYS_REG_SERVICE, name + 1, 0, None).ret, 0);
    k.handle_syscall(SYS_PRINT, b'x' as u64, 0, None);
    k.handle_syscall(SYS_YIELD, 0, 0, None);
    k.schedule_next(0x100, true);
    for _ in 0..7 {
        k.timer_tick(0x200);
    }
    assert_eq!(k.handle_syscall(SYS_GET_SERVICE_PID, name, 0, None).ret, 1);
    assert_eq!(k.handle_syscall(SYS_GET_SERVICE_PID, name + 2, 0, None).ret, NOT_FOUND);
}

#[test]
fn a_waiting_task_receives_what_is_sent_to_it() {
    let mut k = Kernel::new();
    k.register_task(Task::new(TaskId(3), 0x1000));
    let mut t = k.registry[&3];
    assert!(t.receive(9).is_none());
    assert_eq!(t.state, TaskState::Blocked);
    k.register_task(t);
    let msg = Message::new(1, 3, 4, 77, 78);
    assert_eq!(k.handle_syscall(SYS_SEND, 3, 0x2000_0000, Some(msg)).ret, 0);
    assert_eq!(k.registry[&3].state, TaskState::Ready);
    assert_eq!(k.executor.task_queue.pop(), Some(9));
    let mut t = k.registry[&3];
    let got = t.receive(9).unwrap();
    assert_eq!((got.from, got.to, got.label, got.payload), (1, 3, 4, [77, 78]));
    assert!(t.mailbox.is_none());
    assert_eq!(t.state, TaskState::Ready);
}

#[test]
fn switching_back_resumes_the_saved_stack() {
    let mut k = kernel_with_list(3);
    // Task 0 is switched out on stack 0xaaa0.
    let d = k.schedule_next(0xaaa0, true);
    assert_eq!((k.current_task_idx, d.next_rsp), (1, 0x2000));
    // Task 1 runs, then task 2, neither switching to task 0.
    let d = k.schedule_next(0xbbb0, true);
    assert_eq!((k.current_task_idx, d.next_rsp), (2, 0x3000));
    k.timer_tick(0xccc0);
    // Switching back to task 0 resumes the stack it was switched out on.
    let d = k.schedule_next(0xddd0, true);
    assert_eq!(k.current_task_idx, 0);
    assert_eq!(k.current_task_id, 1);
    assert_eq!(d.next_rsp, 0xaaa0);
}

#[test]
fn serial_input_waits_for_the_next_receive() {
    let mut k = kernel_with_list(2);
    k.serial_input(b'z');
    k.current_task_id = 1;
    k.handle_syscall(SYS_PRINT, b'a' as u64, 0, None);
    k.handle_syscall(SYS_REG_SERVICE, 7, 0, None);
    k.timer_tick(0x100);
    k.schedule_next(0x200, true);
    k.spawn(Task::new(TaskId(10), 0x9000));
    let _ = k.next_ready_task();
    let r = k.handle_syscall(SYS_RECV, 0x2000_0000, 0, None);
    assert_eq!(r.ret, 1);
    match r.effect {
        SyscallEffect::Deliver(m) => assert_eq!((m.from, m.to, m.label, m.payload), (0, 1, 3, [b'z' as u64, 0])),
        _ => panic!("expected a delivered message"),
    }
    assert!(k.init_mailbox.is_none());
}

#[test]
fn device_lines_are_unmasked() {
    assert_eq!(unmask_device_lines(0xff), 0xec);
    assert_eq!(unmask_device_lines(0x13), 0x00);
    assert_eq!(unmask_device_lines(0xa0), 0xa0);
}

#[test]
fn multitasking_starts_with_the_first_task() {
    let mut k = Kernel::new();
    assert!(k.start_first_task().is_none());
    let mut k = kernel_with_list(2);
    k.current_task_idx = 1;
    let d = k.start_first_task().unwrap();
    assert_eq!((d.next_rsp, d.interrupt_stack, d.idle), (0x1000, Some(0x2000), false));
    assert_eq!((k.current_task_idx, k.current_task_id), (0, 1));
    assert!(!k.idle);
}

#[test]
fn a_fault_resumes_another_tasks_stack() {
    let mut k = Kernel::new();
    for i in 1..=3u64 {
        let top = 0x10_0000 * i;
        let mut t = Task::new(TaskId(i), top);
        t.kernel_rsp = top - 0xa0;
        k.add_to_task_list(t);
    }
    let (_, d) = k.kill_faulting_task(0x10_0000 - 0x200);
    assert!(!d.idle);
    assert_eq!(d.next_rsp, 0x20_0000 - 0xa0);
    assert!(d.next_rsp > 0x10_0000 || d.next_rsp <= 0x10_0000 - 32768);
}
