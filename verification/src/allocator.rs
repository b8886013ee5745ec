//! The kernel heap's place in the address space and the pages that back it.
use vstd::prelude::*;
use crate::paging::{PageRange, inclusive_pages, page_range_inclusive, PRESENT, WRITABLE, USER_ACCESSIBLE};

verus! {

/// Start of the kernel heap, far above the kernel image.
pub const HEAP_START: u64 = 0x4444_4444_0000;

/// Size of the kernel heap: 100 KiB.
pub const HEAP_SIZE: u64 = 100 * 1024;

/// The pages to map, present and writable, before the heap allocator may
/// hand out memory: from the page of `HEAP_START` to the page of the heap's
/// last byte. The heap is page aligned and a whole number of pages, so
/// these are exactly the 25 pages that hold `[HEAP_START, HEAP_START +
/// HEAP_SIZE)`.
pub fn heap_pages() -> (r: PageRange)
    ensures
        r == inclusive_pages(HEAP_START as int, HEAP_START + HEAP_SIZE - 1),
        r.first == HEAP_START,
        r.count * 4096 == HEAP_SIZE,
{
    let start: u64 = HEAP_START;
    let end: u64 = start + HEAP_SIZE - 1;
    page_range_inclusive(start, end)
}

/// The flags of the heap's pages: present and writable, and kernel only
/// (not accessible from Ring 3).
pub fn heap_page_flags() -> (f: u64)
    ensures
        f == PRESENT | WRITABLE,
        f & PRESENT != 0,
        f & WRITABLE != 0,
        f & USER_ACCESSIBLE == 0,
{
    assert((1u64 | 2u64) & 1u64 != 0 && (1u64 | 2u64) & 2u64 != 0 && (1u64 | 2u64) & 4u64 == 0) by (bit_vector);
    PRESENT | WRITABLE
}

} // verus!
