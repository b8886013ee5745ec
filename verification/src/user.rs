//! The init program that runs in Ring 3: the two processes started from it
//! tell themselves apart by their stack, process A serves the serial
//! console as an echo server and process B looks the service up and then
//! deliberately faults.
use vstd::prelude::*;
use vstd::string::StringSliceAdditionalSpecFns;

verus! {

/// The IPC message as user space lays it out.
#[derive(Clone, Copy, Debug)]
pub struct Message {
    pub from: u64,
    pub to: u64,
    pub label: u64,
    pub payload: [u64; 2],
}

/// The service name of the serial echo server: "SERIAL  " as eight
/// little-endian ASCII bytes.
pub const SERVICE_NAME_SERIAL: u64 = 0x2020_4C41_4952_4553;

/// Process B's stack lies above this address, process A's below.
pub const PROCESS_B_STACK_FLOOR: u64 = 0x3500_0000;

/// Label of a message carrying a byte typed on the serial console.
pub const LABEL_SERIAL_INPUT: u64 = 3;

/// Whether the process running on stack pointer `rsp` is process B.
pub fn is_process_b(rsp: u64) -> (r: bool)
    ensures
        r == (rsp > PROCESS_B_STACK_FLOOR),
{
    rsp > PROCESS_B_STACK_FLOOR
}

/// The bytes that printing `s` sends, one print call each: its UTF-8
/// encoding, in order.
pub fn print_str(s: &str) -> (r: Vec<u8>)
    ensures
        r@ == s.spec_bytes(),
{
    let b = s.as_bytes();
    let mut out: Vec<u8> = Vec::new();
    let mut i: usize = 0;
    while i < b.len()
        invariant
            b@ == s.spec_bytes(),
            0 <= i <= b@.len(),
            out@ == b@.take(i as int),
        decreases b@.len() - i,
    {
        out.push(b[i]);
        i = i + 1;
        assert(out@ =~= b@.take(i as int));
    }
    assert(b@.take(b@.len() as int) =~= b@);
    out
}

/// The registers of a print system call: the call number in RAX and the
/// character in RDI.
pub fn print_call_args(c: char) -> (r: (u64, u64))
    ensures
        r.0 == 1,
        r.1 == c as u64,
{
    (1, c as u64)
}

/// The digit process B prints for the id of the serial service: the id's
/// low byte added to ASCII '0' (wrapping, as the release build does), or
/// nothing when the service is not registered.
pub fn service_pid_digit(pid: u64) -> (r: Option<u8>)
    ensures
        pid == u64::MAX ==> r.is_none(),
        pid != u64::MAX ==> r == Some((((pid % 256) + 48) % 256) as u8),
{
    if pid != u64::MAX {
        let low: u8 = (pid % 256) as u8;
        Some(low.wrapping_add(48))
    } else {
        None
    }
}

/// What the echo server does after one receive attempt.
#[derive(Clone, Copy, Debug, PartialEq, Eq, Structural)]
pub enum EchoAction {
    /// Print this byte (highlighted).
    Echo(u8),
    /// A message arrived that is not serial input: go on receiving.
    Ignore,
    /// No message: give up the CPU until the next interrupt.
    Yield,
}

/// The echo server's reaction to a receive that returned `received` and
/// a message with `label` and first payload word `p0`: a received
/// serial-input message is echoed (the payload's low byte), any other
/// message is ignored, and when nothing was received the server yields.
pub open spec fn echo_of(received: u64, label: u64, p0: u64) -> EchoAction {
    if received != 1 {
        EchoAction::Yield
    } else if label == LABEL_SERIAL_INPUT {
        EchoAction::Echo((p0 % 256) as u8)
    } else {
        EchoAction::Ignore
    }
}

/// The echo server's step after one receive attempt.
pub fn echo_step(received: u64, msg: &Message) -> (r: EchoAction)
    ensures
        r == echo_of(received, msg.label, msg.payload[0]),
{
    if received == 1 {
        if msg.label == LABEL_SERIAL_INPUT {
            EchoAction::Echo((msg.payload[0] % 256) as u8)
        } else {
            EchoAction::Ignore
        }
    } else {
        EchoAction::Yield
    }
}

} // verus!
