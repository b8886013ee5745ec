use vstd::prelude::*;

verus! {

/// The IPC message shared between kernel and user space: the sender's
/// process id, a message type label and a sixteen byte payload.
#[derive(Clone, Copy, Debug)]
pub struct Message {
    pub from: u64,
    pub label: u64,
    pub payload: [u64; 2],
}

impl Message {
    /// Builds a message from its parts.
    pub fn new(from: u64, label: u64, p0: u64, p1: u64) -> (m: Message)
        ensures
            m.from == from,
            m.label == label,
            m.payload@ == seq![p0, p1],
    {
        Message { from, label, payload: [p0, p1] }
    }
}

} // verus!
