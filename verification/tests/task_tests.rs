use kernel::task::{Message, Task, TaskId, TaskState, DEFAULT_PRIORITY, USER_RFLAGS};
use kernel::ipc;
use kernel::interrupts::InterruptIndex;
use kernel::QemuExitCode;

#[test]
fn trivial_assertion() {
    assert_eq!(1, 1);
}

#[test]
fn task_id_new_hands_out_consecutive_ids() {
    let mut counter: u64 = 1;
    let a = TaskId::new(&mut counter);
    let b = TaskId::new(&mut counter);
    assert_eq!(a, TaskId(1));
    assert_eq!(b, TaskId(2));
    assert_eq!(counter, 3);
    assert!(a < b);
}

#[test]
fn task_ids_stay_distinct_across_the_wrap() {
    let mut counter: u64 = u64::MAX - 2;
    let ids: Vec<u64> = (0..6).map(|_| TaskId::new(&mut counter).0).collect();
    assert_eq!(ids, vec![u64::MAX - 2, u64::MAX - 1, u64::MAX, 0, 1, 2]);
    for a in 0..ids.len() {
        for b in a + 1..ids.len() {
            assert_ne!(ids[a], ids[b]);
        }
    }
}

#[test]
fn task_id_new_wraps_at_the_top() {
    let mut counter: u64 = u64::MAX;
    let a = TaskId::new(&mut counter);
    assert_eq!(a.0, u64::MAX);
    assert_eq!(counter, 0);
}

#[test]
fn kernel_task_starts_ready_at_its_stack_top() {
    let t = Task::new(TaskId(4), 0x9000);
    assert_eq!(t.id, TaskId(4));
    assert_eq!(t.state, TaskState::Ready);
    assert_eq!(t.priority, DEFAULT_PRIORITY);
    assert_eq!(t.priority, 5);
    assert_eq!(t.kernel_rsp, 0x9000);
    assert_eq!(t.kernel_stack_top, 0x9000);
    assert!(t.mailbox.is_none());
    assert!(t.waker.is_none());
    assert!(t.is_runnable());
}

#[test]
fn user_process_frame_matches_the_interrupt_return_path() {
    let (t, frame) = Task::create_user_process(TaskId(7), 0x2000_0000, 0x3000_8000, 0x10_0000, 0x30, 0x28);
    assert_eq!(t.kernel_rsp, 0x10_0000 - 160);
    assert_eq!(t.kernel_stack_top, 0x10_0000);
    assert_eq!(t.state, TaskState::Ready);
    assert_eq!(frame.len(), 20);
    for i in 0..15 {
        assert_eq!(frame[i], 0);
    }
    assert_eq!(frame[15], 0x2000_0000);
    assert_eq!(frame[16], 0x33);
    assert_eq!(frame[17], USER_RFLAGS);
    assert_eq!(frame[17], 0x202);
    assert_eq!(frame[18], 0x3000_8000);
    assert_eq!(frame[19], 0x2b);
}

#[test]
fn receive_takes_a_waiting_message() {
    let mut t = Task::new(TaskId(2), 0x8000);
    t.state = TaskState::Blocked;
    t.mailbox = Some(Message::new(1, 2, 7, 11, 12));
    let m = t.receive(9).unwrap();
    assert_eq!(m.from, 1);
    assert_eq!(m.to, 2);
    assert_eq!(m.label, 7);
    assert_eq!(m.payload, [11, 12]);
    assert!(t.mailbox.is_none());
    assert_eq!(t.state, TaskState::Ready);
    assert!(t.waker.is_none());
}

#[test]
fn receive_on_empty_mailbox_blocks_and_registers_waker() {
    let mut t = Task::new(TaskId(2), 0x8000);
    assert!(t.receive(9).is_none());
    assert_eq!(t.state, TaskState::Blocked);
    assert_eq!(t.waker, Some(9));
    assert!(!t.is_runnable());
}

#[test]
fn ipc_message_new_keeps_its_parts() {
    let m = ipc::Message::new(3, 1, 0xaa, 0xbb);
    assert_eq!(m.from, 3);
    assert_eq!(m.label, 1);
    assert_eq!(m.payload, [0xaa, 0xbb]);
}

#[test]
fn interrupt_vectors() {
    assert_eq!(InterruptIndex::Timer.as_u8(), 32);
    assert_eq!(InterruptIndex::Keyboard.as_u8(), 33);
    assert_eq!(InterruptIndex::Serial.as_u8(), 36);
    assert_eq!(InterruptIndex::Serial.as_usize(), 36);
    assert_eq!(InterruptIndex::Timer.as_usize(), 32);
}

#[test]
fn qemu_exit_codes() {
    assert_eq!(QemuExitCode::Success.code(), 0x10);
    assert_eq!(QemuExitCode::Failed.code(), 0x11);
}
