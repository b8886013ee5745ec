# kernel

A small x86_64 microkernel whose decision-making core is verified with Verus.

- `src/` is the verified library. `Kernel` (in `kernel.rs`) holds the global
  state: the task registry, the service-name registry, the init mailbox, the
  round-robin task list and the executor's run queue. Its operations are
  spread over the modules that own them:
  - `interrupts.rs`: interrupt vectors, the scheduler (`schedule_next`,
    `timer_tick`, `kill_faulting_task`) and device input to the init mailbox;
  - `syscall.rs`: the system-call dispatcher `handle_syscall`;
  - `events.rs`: every kernel operation as one kind of step, and the laws
    that hold over any run of steps;
  - `executor.rs`: spawning, polling order and completion of kernel tasks;
  - `task.rs`, `ipc.rs`: task records, task ids and IPC messages;
  - `mem.rs`, `paging.rs`, `allocator.rs`: the boot frame allocator, page
    ranges, the heap and user-stack layout;
  - `loader.rs`: ELF program headers and segment loading plans;
  - `keyboard.rs`, `queue.rs`: the scancode queue, the bounded queue the
    kernel borrows from `crossbeam_queue`, and scancode decoding with
    `pc_keyboard`;
  - `user.rs`: the decisions of the Ring-3 init program.
  Each module states its laws as public proof functions next to the code.
- `app/` is the kernel binary around it: boot entry, descriptor tables,
  naked interrupt and system-call stubs, port I/O, page-table updates and the
  futures of kernel tasks. It performs the actions the library decides.
- `tests/` exercises the library on concrete values.
