//! The bounded FIFO queue of `crossbeam_queue` that the kernel uses for its
//! run queue (task ids) and for keyboard scancodes.
//!
//! The queue's own methods take `&self` (it is a lock-free MPMC queue); the
//! wrappers here take `&mut` so that a change of contents is visible to the
//! verifier. Spec functions cannot be generic here, so each of the two
//! element types has its own names and wrappers.
use vstd::prelude::*;
use crossbeam_queue::ArrayQueue;

verus! {

#[verifier::external_type_specification]
#[verifier::external_body]
#[verifier::reject_recursive_types(T)]
pub struct ExArrayQueue<T>(ArrayQueue<T>);

/// The task ids in a run queue, front (next to pop) first.
pub uninterp spec fn task_queue_items(q: ArrayQueue<u64>) -> Seq<u64>;

/// The capacity a run queue was created with.
pub uninterp spec fn task_queue_capacity(q: ArrayQueue<u64>) -> nat;

/// The scancodes in a scancode queue, front first.
pub uninterp spec fn scancode_queue_items(q: ArrayQueue<u8>) -> Seq<u8>;

/// The capacity a scancode queue was created with.
pub uninterp spec fn scancode_queue_capacity(q: ArrayQueue<u8>) -> nat;

/// `ArrayQueue::new` for task ids: an empty queue holding at most `cap`
/// items. The crate panics on a zero capacity and on one whose successor
/// has no power of two in `u64`; `requires` keeps well below that.
#[verifier::external_body]
pub(crate) fn new_task_queue(cap: usize) -> (q: ArrayQueue<u64>)
    requires
        0 < cap <= 0x1000_0000,
    ensures
        task_queue_items(q) == Seq::<u64>::empty(),
        task_queue_capacity(q) == cap,
{
    ArrayQueue::new(cap)
}

/// `ArrayQueue::push` for task ids: appends at the back when the queue
/// holds fewer items than its capacity, else hands the value back.
#[verifier::external_body]
pub(crate) fn push_task_id(q: &mut ArrayQueue<u64>, v: u64) -> (r: Result<(), u64>)
    ensures
        task_queue_capacity(*final(q)) == task_queue_capacity(*old(q)),
        task_queue_items(*old(q)).len() < task_queue_capacity(*old(q)) ==> {
            &&& r == Ok::<(), u64>(())
            &&& task_queue_items(*final(q)) == task_queue_items(*old(q)).push(v)
        },
        task_queue_items(*old(q)).len() >= task_queue_capacity(*old(q)) ==> {
            &&& r == Err::<(), u64>(v)
            &&& task_queue_items(*final(q)) == task_queue_items(*old(q))
        },
{
    q.push(v)
}

/// `ArrayQueue::pop` for task ids: removes and returns the front item, or
/// returns `None` on an empty queue.
#[verifier::external_body]
pub(crate) fn pop_task_id(q: &mut ArrayQueue<u64>) -> (r: Option<u64>)
    ensures
        task_queue_capacity(*final(q)) == task_queue_capacity(*old(q)),
        task_queue_items(*old(q)).len() == 0 ==> {
            &&& r == None::<u64>
            &&& task_queue_items(*final(q)) == task_queue_items(*old(q))
        },
        task_queue_items(*old(q)).len() > 0 ==> {
            &&& r == Some(task_queue_items(*old(q))[0])
            &&& task_queue_items(*final(q)) == task_queue_items(*old(q)).skip(1)
        },
{
    q.pop()
}

/// `ArrayQueue::is_empty` for task ids.
#[verifier::external_body]
pub(crate) fn task_queue_is_empty(q: &ArrayQueue<u64>) -> (r: bool)
    ensures
        r == (task_queue_items(*q).len() == 0),
{
    q.is_empty()
}

/// `ArrayQueue::new` for scancodes: an empty queue holding at most `cap`
/// items (same panics as for task ids, kept out by `requires`).
#[verifier::external_body]
pub(crate) fn new_scancode_queue(cap: usize) -> (q: ArrayQueue<u8>)
    requires
        0 < cap <= 0x1000_0000,
    ensures
        scancode_queue_items(q) == Seq::<u8>::empty(),
        scancode_queue_capacity(q) == cap,
{
    ArrayQueue::new(cap)
}

/// `ArrayQueue::push` for scancodes: appends at the back when the queue
/// holds fewer items than its capacity, else hands the value back.
#[verifier::external_body]
pub(crate) fn push_scancode(q: &mut ArrayQueue<u8>, v: u8) -> (r: Result<(), u8>)
    ensures
        scancode_queue_capacity(*final(q)) == scancode_queue_capacity(*old(q)),
        scancode_queue_items(*old(q)).len() < scancode_queue_capacity(*old(q)) ==> {
            &&& r == Ok::<(), u8>(())
            &&& scancode_queue_items(*final(q)) == scancode_queue_items(*old(q)).push(v)
        },
        scancode_queue_items(*old(q)).len() >= scancode_queue_capacity(*old(q)) ==> {
            &&& r == Err::<(), u8>(v)
            &&& scancode_queue_items(*final(q)) == scancode_queue_items(*old(q))
        },
{
    q.push(v)
}

/// `ArrayQueue::pop` for scancodes: removes and returns the front item, or
/// returns `None` on an empty queue.
#[verifier::external_body]
pub(crate) fn pop_scancode(q: &mut ArrayQueue<u8>) -> (r: Option<u8>)
    ensures
        scancode_queue_capacity(*final(q)) == scancode_queue_capacity(*old(q)),
        scancode_queue_items(*old(q)).len() == 0 ==> {
            &&& r == None::<u8>
            &&& scancode_queue_items(*final(q)) == scancode_queue_items(*old(q))
        },
        scancode_queue_items(*old(q)).len() > 0 ==> {
            &&& r == Some(scancode_queue_items(*old(q))[0])
            &&& scancode_queue_items(*final(q)) == scancode_queue_items(*old(q)).skip(1)
        },
{
    q.pop()
}

} // verus!
