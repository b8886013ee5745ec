//! Verified core of a small x86_64 microkernel: task records and IPC
//! messages, the round-robin scheduler, the system-call dispatcher, the
//! kernel executor's run queue, the boot frame allocator, heap and user
//! stack layout, ELF segment loading plans and the user-side echo server.
//!
//! Everything that touches hardware (port I/O, control registers, page
//! tables, naked assembly) lives outside this crate; it hands plain values
//! to the functions here and performs the actions they return.

pub mod ipc;
pub mod task;
pub mod queue;
pub mod executor;
pub mod kernel;
pub mod interrupts;
pub mod syscall;
pub mod events;
pub mod keyboard;
pub mod mem;
pub mod paging;
pub mod loader;
pub mod allocator;
pub mod user;

use vstd::prelude::*;

verus! {

/// The status a test run reports to QEMU through its debug-exit device.
#[derive(Clone, Copy, Debug, PartialEq, Eq, Structural)]
pub enum QemuExitCode {
    Success,
    Failed,
}

impl QemuExitCode {
    /// The value written to the debug-exit port: 0x10 for success, 0x11
    /// for failure.
    pub fn code(self) -> (r: u32)
        ensures
            self == QemuExitCode::Success ==> r == 0x10,
            self == QemuExitCode::Failed ==> r == 0x11,
    {
        match self {
            QemuExitCode::Success => 0x10,
            QemuExitCode::Failed => 0x11,
        }
    }
}

} // verus!
